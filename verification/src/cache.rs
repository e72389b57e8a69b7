//! Loading, parsing and caching of one JSON resource document per namespace,
//! with modification-time invalidation, and key lookup by dotted path.
//!
//! File reading itself is the caller's concern: a namespace is handed in as
//! its file's modification time and text content. Parsing and path
//! projection are done by outside crates behind trusted wrappers.

use vstd::prelude::*;
use vstd::string::*;

verus! {

#[verifier::external_type_specification]
#[verifier::external_body]
pub struct ExJsonValue(serde_json::Value);

/// The string entries of a parsed document: every dotted path whose
/// projection query yields, as its first match, a string, mapped to that
/// string.
pub uninterp spec fn doc_strings(doc: serde_json::Value) -> Map<Seq<char>, Seq<char>>;

/// The string entries of the one JSON document denoted by `text`, when
/// `text` parses as JSON.
pub uninterp spec fn spec_parse_json(text: Seq<char>) -> Option<Map<Seq<char>, Seq<char>>>;

/// Relies on serde_json::from_str::<Value>: parses the text as one JSON
/// document; success and the resulting document depend on the text alone.
#[verifier::external_body]
fn parse_json(text: &str) -> (r: Result<serde_json::Value, String>)
    ensures
        r is Ok <==> spec_parse_json(text@) is Some,
        r matches Ok(doc) ==> Some(doc_strings(doc)) == spec_parse_json(text@),
{
    match serde_json::from_str::<serde_json::Value>(text) {
        Ok(v) => Ok(v),
        Err(e) => Err(format!("{}", e)),
    }
}

/// Relies on jsonpath_rust::JsonPath::query: projects `$.<path>` onto the
/// document; of the ordered matches only the first is taken, and only when
/// it is a string. The result depends on the document and path alone.
#[verifier::external_body]
fn query_first_string(doc: &serde_json::Value, path: &String) -> (r: Option<String>)
    ensures
        r matches Some(s) ==> doc_strings(*doc).contains_key(path@) && doc_strings(*doc)[path@]
            == s@,
        r is None ==> !doc_strings(*doc).contains_key(path@),
{
    let q = format!("$.{}", path);
    match jsonpath_rust::JsonPath::query(doc, &q) {
        Ok(matches) => match matches.first() {
            Some(v) => v.as_str().map(|s| s.to_string()),
            None => None,
        },
        Err(_) => None,
    }
}

/// Why a namespace could not be loaded or a key could not be resolved.
#[derive(Debug)]
pub enum CacheError {
    IoError(String),
    JsonError(String),
    KeyNotFound(String),
}

/// Association lookup over an entry list; the entry pushed last wins.
pub open spec fn assoc_get<V>(s: Seq<(String, V)>, k: Seq<char>) -> Option<V>
    decreases s.len(),
{
    if s.len() == 0 {
        None
    } else if s.last().0@ == k {
        Some(s.last().1)
    } else {
        assoc_get(s.drop_last(), k)
    }
}

/// The mapping an entry list denotes.
pub open spec fn assoc_map<V, W>(s: Seq<(String, V)>, f: spec_fn(V) -> W) -> Map<Seq<char>, W>
    decreases s.len(),
{
    if s.len() == 0 {
        Map::empty()
    } else {
        assoc_map(s.drop_last(), f).insert(s.last().0@, f(s.last().1))
    }
}

pub proof fn lemma_assoc_map_get<V, W>(s: Seq<(String, V)>, f: spec_fn(V) -> W, k: Seq<char>)
    ensures
        assoc_map(s, f).contains_key(k) <==> assoc_get(s, k) is Some,
        assoc_get(s, k) matches Some(v) ==> assoc_map(s, f)[k] == f(v),
    decreases s.len(),
{
    if s.len() > 0 {
        lemma_assoc_map_get(s.drop_last(), f, k);
    }
}

pub proof fn lemma_assoc_push<V, W>(s: Seq<(String, V)>, f: spec_fn(V) -> W, p: (String, V))
    ensures
        assoc_map(s.push(p), f) == assoc_map(s, f).insert(p.0@, f(p.1)),
        assoc_get(s.push(p), p.0@) == Some(p.1),
{
    assert(s.push(p).drop_last() =~= s);
    assert(s.push(p).last() == p);
}

/// The mathematical state of a resource cache.
pub struct CacheView {
    pub base: Seq<char>,
    pub docs: Map<Seq<char>, Map<Seq<char>, Seq<char>>>,
    pub mtimes: Map<Seq<char>, u64>,
    pub loads: u64,
}

/// The on-disk location of a namespace's resource file: the configured base
/// directory (made relative to the fixed process root when not absolute)
/// joined with `<namespace>.json`.
pub open spec fn spec_resource_path(base: Seq<char>, scope: Seq<char>) -> Seq<char> {
    if base.len() > 0 && base[0] == '/' {
        base + "/"@ + scope + ".json"@
    } else {
        "/cwd/"@ + base + "/"@ + scope + ".json"@
    }
}

/// What adding a namespace file does to a cache: nothing when the recorded
/// modification time for its path is unchanged; otherwise the parsed
/// document is stored under the namespace and the new time under the path,
/// counting one load. The second component says whether the call succeeds.
pub open spec fn spec_add_file(
    m: CacheView,
    scope: Seq<char>,
    mtime: u64,
    content: Seq<char>,
) -> (CacheView, bool) {
    let path = spec_resource_path(m.base, scope);
    if m.mtimes.contains_key(path) && m.mtimes[path] == mtime {
        (m, true)
    } else {
        match spec_parse_json(content) {
            Some(entries) => (
                CacheView {
                    base: m.base,
                    docs: m.docs.insert(scope, entries),
                    mtimes: m.mtimes.insert(path, mtime),
                    loads: if m.loads < u64::MAX {
                        (m.loads + 1) as u64
                    } else {
                        m.loads
                    },
                },
                true,
            ),
            None => (m, false),
        }
    }
}

/// The string a cached namespace resolves a dotted path to, if any.
pub open spec fn spec_get(m: CacheView, filename: Seq<char>, key: Seq<char>) -> Option<Seq<char>> {
    if m.docs.contains_key(filename) && m.docs[filename].contains_key(key) {
        Some(m.docs[filename][key])
    } else {
        None
    }
}

/// One JSON document per namespace, kept with the modification time under
/// which it was read.
pub struct Cache {
    base_path: String,
    docs: Vec<(String, serde_json::Value)>,
    mtimes: Vec<(String, u64)>,
    loads: u64,
}

impl View for Cache {
    type V = CacheView;

    closed spec fn view(&self) -> CacheView {
        CacheView {
            base: self.base_path@,
            docs: assoc_map(self.docs@, |d: serde_json::Value| doc_strings(d)),
            mtimes: assoc_map(self.mtimes@, |t: u64| t),
            loads: self.loads,
        }
    }
}

impl Cache {
    pub fn new(base_path: String) -> (r: Self)
        ensures
            r@ == (CacheView {
                base: base_path@,
                docs: Map::<Seq<char>, Map<Seq<char>, Seq<char>>>::empty(),
                mtimes: Map::<Seq<char>, u64>::empty(),
                loads: 0u64,
            }),
    {
        Cache { base_path, docs: Vec::new(), mtimes: Vec::new(), loads: 0 }
    }

    /// How many times a resource file has been parsed so far.
    pub fn load_count(&self) -> (n: u64)
        ensures
            n == self@.loads,
    {
        self.loads
    }

    /// The on-disk location of a namespace's resource file.
    pub fn resource_path(&self, scope: &String) -> (r: String)
        ensures
            r@ == spec_resource_path(self@.base, scope@),
    {
        let b = self.base_path.as_str();
        let is_abs = b.unicode_len() > 0 && b.get_char(0) == '/';
        let mut p = String::new();
        if !is_abs {
            p.append("/cwd/");
        }
        p.append(b);
        p.append("/");
        p.append(scope.as_str());
        p.append(".json");
        proof {
            assert(p@ =~= spec_resource_path(self@.base, scope@));
        }
        p
    }

    fn find_mtime(&self, path: &String) -> (r: Option<u64>)
        ensures
            r == assoc_get(self.mtimes@, path@),
    {
        let ghost s = self.mtimes@;
        let mut i = self.mtimes.len();
        proof {
            assert(s.take(i as int) =~= s);
        }
        while i > 0
            invariant
                i <= self.mtimes.len(),
                s == self.mtimes@,
                assoc_get(s, path@) == assoc_get(s.take(i as int), path@),
            decreases i,
        {
            i = i - 1;
            proof {
                assert(s.take(i as int + 1).last() == s[i as int]);
                assert(s.take(i as int + 1).drop_last() =~= s.take(i as int));
            }
            if self.mtimes[i].0.eq(path) {
                return Some(self.mtimes[i].1);
            }
        }
        proof {
            assert(s.take(0) =~= Seq::<(String, u64)>::empty());
        }
        None
    }

    fn find_doc<'a>(&'a self, name: &String) -> (r: Option<&'a serde_json::Value>)
        ensures
            r matches Some(v) ==> assoc_get(self.docs@, name@) == Some(*v),
            r is None ==> assoc_get(self.docs@, name@) is None,
    {
        let ghost s = self.docs@;
        let mut i = self.docs.len();
        proof {
            assert(s.take(i as int) =~= s);
        }
        while i > 0
            invariant
                i <= self.docs.len(),
                s == self.docs@,
                assoc_get(s, name@) == assoc_get(s.take(i as int), name@),
            decreases i,
        {
            i = i - 1;
            proof {
                assert(s.take(i as int + 1).last() == s[i as int]);
                assert(s.take(i as int + 1).drop_last() =~= s.take(i as int));
            }
            if self.docs[i].0.eq(name) {
                return Some(&self.docs[i].1);
            }
        }
        proof {
            assert(s.take(0) =~= Seq::<(String, serde_json::Value)>::empty());
        }
        None
    }

    /// Records the namespace's resource file, given the modification time
    /// and text read from its path. An unchanged modification time is a
    /// no-op; otherwise the content is parsed and stored, or the parse
    /// failure reported.
    pub fn add_file(&mut self, scope: String, mtime: u64, content: &str) -> (r: Result<
        (),
        CacheError,
    >)
        ensures
            final(self)@ == spec_add_file(old(self)@, scope@, mtime, content@).0,
            (r is Ok) == spec_add_file(old(self)@, scope@, mtime, content@).1,
            r matches Err(e) ==> e matches CacheError::JsonError(_),
    {
        let path = self.resource_path(&scope);
        let known = self.find_mtime(&path);
        proof {
            lemma_assoc_map_get(self.mtimes@, |t: u64| t, path@);
        }
        if let Some(t) = known {
            if t == mtime {
                return Ok(());
            }
        }
        match parse_json(content) {
            Err(msg) => Err(CacheError::JsonError(msg)),
            Ok(doc) => {
                proof {
                    lemma_assoc_push(
                        self.docs@,
                        |d: serde_json::Value| doc_strings(d),
                        (scope, doc),
                    );
                    lemma_assoc_push(self.mtimes@, |t: u64| t, (path, mtime));
                }
                self.docs.push((scope, doc));
                self.mtimes.push((path, mtime));
                if self.loads < u64::MAX {
                    self.loads = self.loads + 1;
                }
                Ok(())
            },
        }
    }

    /// Resolves a dotted path against a cached namespace document. Fails
    /// with the key when the namespace is not cached, when the projection
    /// query has no match, or when its first match is not a string.
    pub fn get(&self, filename: String, key: String) -> (r: Result<String, CacheError>)
        ensures
            r is Ok <==> spec_get(self@, filename@, key@) is Some,
            r matches Ok(s) ==> Some(s@) == spec_get(self@, filename@, key@),
            r matches Err(e) ==> e matches CacheError::KeyNotFound(k) && k@ == key@,
    {
        proof {
            lemma_assoc_map_get(self.docs@, |d: serde_json::Value| doc_strings(d), filename@);
        }
        match self.find_doc(&filename) {
            None => Err(CacheError::KeyNotFound(key)),
            Some(doc) => match query_first_string(doc, &key) {
                Some(s) => Ok(s),
                None => Err(CacheError::KeyNotFound(key)),
            },
        }
    }
}

/// Law: adding a namespace whose file's modification time is unchanged
/// leaves the cache exactly as it was — same documents, same load count —
/// whatever content is handed in, so every later lookup resolves
/// identically without a reparse.
pub proof fn lemma_add_file_unchanged(
    m: CacheView,
    scope: Seq<char>,
    mtime: u64,
    c1: Seq<char>,
    c2: Seq<char>,
)
    requires
        spec_add_file(m, scope, mtime, c1).1,
    ensures
        spec_add_file(spec_add_file(m, scope, mtime, c1).0, scope, mtime, c2) == (
            spec_add_file(m, scope, mtime, c1).0,
            true,
        ),
{
}

} // verus!
