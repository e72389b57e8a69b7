//! Markup splicing for resolved text: parsing a resolved value as a markup
//! fragment and substituting component-map templates for its direct child
//! elements.
//!
//! The fragment grammar is the resource format's own: text runs alternating
//! with elements, an element being `<name/>`, `<name />`, or
//! `<name>children</name>` with a matching closing tag.

use vstd::prelude::*;
use vstd::string::*;
use crate::ast::{
    Expr, JsxChild, JsxElement, StrLit, VExpr, VJsxChild, VJsxElement, VStrLit, copy_attrs,
    copy_children, copy_jsx_child, lemma_view_children_index, make_zero_span, view_children,
    view_expr, view_jsx_child, view_jsx_element, zero_span,
};
use crate::util::find_from;

verus! {

pub open spec fn is_name_char(c: char) -> bool {
    (c as u32 >= 'a' as u32 && c as u32 <= 'z' as u32) || (c as u32 >= 'A' as u32 && c as u32
        <= 'Z' as u32) || (c as u32 >= '0' as u32 && c as u32 <= '9' as u32) || c == '_'
}

fn is_name_char_exec(c: char) -> (b: bool)
    ensures
        b == is_name_char(c),
{
    let u = c as u32;
    (u >= 'a' as u32 && u <= 'z' as u32) || (u >= 'A' as u32 && u <= 'Z' as u32) || (u >= '0'
        as u32 && u <= '9' as u32) || c == '_'
}

/// End of the identifier run starting at `i`.
pub open spec fn scan_name_end(s: Seq<char>, i: int) -> int
    decreases s.len() - i,
{
    if 0 <= i < s.len() && is_name_char(s[i]) {
        scan_name_end(s, i + 1)
    } else {
        i
    }
}

/// End of the run of spaces starting at `i`.
pub open spec fn scan_spaces(s: Seq<char>, i: int) -> int
    decreases s.len() - i,
{
    if 0 <= i < s.len() && s[i] == ' ' {
        scan_spaces(s, i + 1)
    } else {
        i
    }
}

pub proof fn lemma_scan_name_end(s: Seq<char>, i: int)
    requires
        0 <= i <= s.len(),
    ensures
        i <= scan_name_end(s, i) <= s.len(),
    decreases s.len() - i,
{
    if i < s.len() && is_name_char(s[i]) {
        lemma_scan_name_end(s, i + 1);
    }
}

pub proof fn lemma_scan_spaces(s: Seq<char>, i: int)
    requires
        0 <= i <= s.len(),
    ensures
        i <= scan_spaces(s, i) <= s.len(),
    decreases s.len() - i,
{
    if i < s.len() && s[i] == ' ' {
        lemma_scan_spaces(s, i + 1);
    }
}

fn name_end_exec(s: &str, i: usize) -> (r: usize)
    requires
        i <= s@.len(),
    ensures
        r as int == scan_name_end(s@, i as int),
        i <= r <= s@.len(),
{
    let n = s.unicode_len();
    let mut j = i;
    while j < n && is_name_char_exec(s.get_char(j))
        invariant
            i <= j <= n,
            n == s@.len(),
            scan_name_end(s@, i as int) == scan_name_end(s@, j as int),
        decreases n - j,
    {
        j = j + 1;
    }
    j
}

fn spaces_end_exec(s: &str, i: usize) -> (r: usize)
    requires
        i <= s@.len(),
    ensures
        r as int == scan_spaces(s@, i as int),
        i <= r <= s@.len(),
{
    let n = s.unicode_len();
    let mut j = i;
    while j < n && s.get_char(j) == ' '
        invariant
            i <= j <= n,
            n == s@.len(),
            scan_spaces(s@, i as int) == scan_spaces(s@, j as int),
        decreases n - j,
    {
        j = j + 1;
    }
    j
}

/// Position of the next `<` at or after `i`, or the end of the text.
pub open spec fn pos_lt(s: Seq<char>, i: int) -> int {
    match find_from(s, '<', i) {
        Some(j) => j,
        None => s.len() as int,
    }
}

/// Clamp for forward progress: `j` when it lies strictly beyond `i` and
/// within the text, the end of the text otherwise.
pub open spec fn advance(i: int, j: int, len: int) -> int {
    if i < j && j <= len {
        j
    } else {
        len
    }
}

/// Parses children at `i` up to the end of the text or a closing tag:
/// alternating text runs and elements.
pub open spec fn spec_parse_items(s: Seq<char>, i: int) -> Option<(Seq<VJsxChild>, int)>
    decreases s.len() - i, 1int,
{
    if i < 0 {
        None
    } else if i >= s.len() {
        Some((Seq::empty(), s.len() as int))
    } else if s[i] == '<' {
        if i + 1 < s.len() && s[i + 1] == '/' {
            Some((Seq::empty(), i))
        } else {
            match spec_parse_element(s, i) {
                None => None,
                Some((el, j)) => {
                    let j2 = advance(i, j, s.len() as int);
                    match spec_parse_items(s, j2) {
                        None => None,
                        Some((rest, end)) => Some((seq![VJsxChild::Element(el)] + rest, end)),
                    }
                },
            }
        }
    } else {
        let j2 = advance(i, pos_lt(s, i), s.len() as int);
        let text = s.subrange(i, j2);
        match spec_parse_items(s, j2) {
            None => None,
            Some((rest, end)) => Some((seq![VJsxChild::Text(text)] + rest, end)),
        }
    }
}

/// Parses one element at `i` (which must hold `<`): its tag name, then
/// either a self-closing end or children followed by the matching closing
/// tag.
pub open spec fn spec_parse_element(s: Seq<char>, i: int) -> Option<(VJsxElement, int)>
    decreases s.len() - i, 0int,
{
    if i < 0 || i >= s.len() {
        None
    } else {
        let ne = scan_name_end(s, i + 1);
        if ne <= i + 1 {
            None
        } else {
            let name = s.subrange(i + 1, ne);
            let k = scan_spaces(s, ne);
            if k < s.len() && s[k] == '/' && k + 1 < s.len() && s[k + 1] == '>' {
                Some(
                    (
                        VJsxElement {
                            name,
                            attrs: Seq::empty(),
                            self_closing: true,
                            children: Seq::empty(),
                            span: zero_span(),
                        },
                        k + 2,
                    ),
                )
            } else if k < s.len() && s[k] == '>' {
                let b = advance(i, k + 1, s.len() as int);
                match spec_parse_items(s, b) {
                    None => None,
                    Some((children, m)) => {
                        if m + 1 < s.len() && s[m] == '<' && s[m + 1] == '/' && m + 2 + name.len()
                            <= s.len() && s.subrange(m + 2, m + 2 + name.len() as int) == name {
                            let q = scan_spaces(s, m + 2 + name.len() as int);
                            if q < s.len() && s[q] == '>' {
                                Some(
                                    (
                                        VJsxElement {
                                            name,
                                            attrs: Seq::empty(),
                                            self_closing: false,
                                            children,
                                            span: zero_span(),
                                        },
                                        q + 1,
                                    ),
                                )
                            } else {
                                None
                            }
                        } else {
                            None
                        }
                    },
                }
            } else {
                None
            }
        }
    }
}

pub proof fn lemma_parse_items_pos(s: Seq<char>, i: int)
    requires
        0 <= i <= s.len(),
        spec_parse_items(s, i) is Some,
    ensures
        i <= spec_parse_items(s, i)->Some_0.1 <= s.len(),
    decreases s.len() - i, 1int,
{
    if i < s.len() && s[i] == '<' {
        if !(i + 1 < s.len() && s[i + 1] == '/') {
            if let Some((el, j)) = spec_parse_element(s, i) {
                let j2 = advance(i, j, s.len() as int);
                if spec_parse_items(s, j2) is Some {
                    lemma_parse_items_pos(s, j2);
                }
            }
        }
    } else if i < s.len() {
        let j2 = advance(i, pos_lt(s, i), s.len() as int);
        if spec_parse_items(s, j2) is Some {
            lemma_parse_items_pos(s, j2);
        }
    }
}

pub proof fn lemma_parse_element_pos(s: Seq<char>, i: int)
    requires
        0 <= i <= s.len(),
        spec_parse_element(s, i) is Some,
    ensures
        i < spec_parse_element(s, i)->Some_0.1 <= s.len(),
    decreases s.len() - i, 0int,
{
    if 0 <= i < s.len() {
        let ne = scan_name_end(s, i + 1);
        lemma_scan_name_end(s, i + 1);
        if ne > i + 1 {
            let k = scan_spaces(s, ne);
            lemma_scan_spaces(s, ne);
            if k < s.len() && s[k] == '/' && k + 1 < s.len() && s[k + 1] == '>' {
            } else if k < s.len() && s[k] == '>' {
                let b = advance(i, k + 1, s.len() as int);
                if let Some((children, m)) = spec_parse_items(s, b) {
                    lemma_parse_items_pos(s, b);
                    let name = s.subrange(i + 1, ne);
                    if m + 1 < s.len() && s[m] == '<' && s[m + 1] == '/' && m + 2 + name.len()
                        <= s.len() && s.subrange(m + 2, m + 2 + name.len() as int) == name {
                        lemma_scan_spaces(s, m + 2 + name.len() as int);
                    }
                }
            }
        }
    }
}

fn parse_element(s: &str, i: usize) -> (r: Result<(JsxElement, usize), ()>)
    requires
        i < s@.len(),
    ensures
        r matches Ok((el, j)) ==> spec_parse_element(s@, i as int) == Some(
            (view_jsx_element(el), j as int),
        ) && i < j <= s@.len(),
        (r is Err) <==> spec_parse_element(s@, i as int) is None,
    decreases s@.len() - i, 0nat,
{
    let n = s.unicode_len();
    let ne = name_end_exec(s, i + 1);
    if ne <= i + 1 {
        return Err(());
    }
    let name = s.substring_char(i + 1, ne).to_owned();
    let k = spaces_end_exec(s, ne);
    if k < n && s.get_char(k) == '/' && k + 1 < n && s.get_char(k + 1) == '>' {
        let el = JsxElement {
            name,
            attrs: Vec::new(),
            self_closing: true,
            children: Vec::new(),
            span: make_zero_span(),
        };
        proof {
            assert(view_children(Seq::<JsxChild>::empty()) =~= Seq::<VJsxChild>::empty());
            assert(crate::ast::view_attrs(Seq::<crate::ast::JsxAttr>::empty())
                =~= Seq::<crate::ast::VJsxAttr>::empty());
        }
        Ok((el, k + 2))
    } else if k < n && s.get_char(k) == '>' {
        match parse_items(s, k + 1) {
            Err(()) => Err(()),
            Ok((children, m)) => {
                let name_len = name.as_str().unicode_len();
                if m < n && m + 1 < n && s.get_char(m) == '<' && s.get_char(m + 1) == '/'
                    && name_len <= n - (m + 2) {
                    let ce = m + 2 + name_len;
                    let closing = s.substring_char(m + 2, ce).to_owned();
                    if name.eq(&closing) {
                        let q = spaces_end_exec(s, ce);
                        if q < n && s.get_char(q) == '>' {
                            let el = JsxElement {
                                name,
                                attrs: Vec::new(),
                                self_closing: false,
                                children,
                                span: make_zero_span(),
                            };
                            proof {
                                assert(crate::ast::view_attrs(Seq::<crate::ast::JsxAttr>::empty())
                                    =~= Seq::<crate::ast::VJsxAttr>::empty());
                            }
                            Ok((el, q + 1))
                        } else {
                            Err(())
                        }
                    } else {
                        Err(())
                    }
                } else {
                    Err(())
                }
            },
        }
    } else {
        Err(())
    }
}

fn parse_items(s: &str, i: usize) -> (r: Result<(Vec<JsxChild>, usize), ()>)
    requires
        i <= s@.len(),
    ensures
        r matches Ok((children, end)) ==> spec_parse_items(s@, i as int) == Some(
            (view_children(children@), end as int),
        ) && i <= end <= s@.len(),
        (r is Err) <==> spec_parse_items(s@, i as int) is None,
    decreases s@.len() - i, 1nat,
{
    let n = s.unicode_len();
    if i >= n {
        let v: Vec<JsxChild> = Vec::new();
        proof {
            assert(view_children(v@) =~= Seq::<VJsxChild>::empty());
        }
        return Ok((v, n));
    }
    if s.get_char(i) == '<' {
        if i + 1 < n && s.get_char(i + 1) == '/' {
            let v: Vec<JsxChild> = Vec::new();
            proof {
                assert(view_children(v@) =~= Seq::<VJsxChild>::empty());
            }
            Ok((v, i))
        } else {
            match parse_element(s, i) {
                Err(()) => Err(()),
                Ok((el, j)) => {
                    match parse_items(s, j) {
                        Err(()) => Err(()),
                        Ok((mut rest, end)) => {
                            let ghost old_rest = rest@;
                            rest.insert(0, JsxChild::Element(el));
                            proof {
                                assert(rest@.drop_first() =~= old_rest);
                                assert(view_children(rest@) =~= seq![
                                    view_jsx_child(rest@[0]),
                                ] + view_children(old_rest));
                            }
                            Ok((rest, end))
                        },
                    }
                },
            }
        }
    } else {
        let j = match crate::util::find_char_from(s, '<', i) {
            Some(j0) => j0,
            None => n,
        };
        proof {
            if let Some(j0) = find_from(s@, '<', i as int) {
                crate::util::lemma_find_from_some(s@, '<', i as int, j0);
            }
        }
        let text = s.substring_char(i, j).to_owned();
        match parse_items(s, j) {
            Err(()) => Err(()),
            Ok((mut rest, end)) => {
                let ghost old_rest = rest@;
                rest.insert(0, JsxChild::Text(text));
                proof {
                    assert(rest@.drop_first() =~= old_rest);
                    assert(view_children(rest@) =~= seq![view_jsx_child(rest@[0])]
                        + view_children(old_rest));
                }
                Ok((rest, end))
            },
        }
    }
}

/// The view of a component map: placeholder names paired with their
/// template elements.
pub open spec fn view_cmap(s: Seq<(String, JsxElement)>) -> Seq<(Seq<char>, VJsxElement)>
    decreases s,
{
    if s.len() == 0 {
        Seq::empty()
    } else {
        view_cmap(s.drop_last()).push((s.last().0@, view_jsx_element(s.last().1)))
    }
}

/// The component-map template for a placeholder name, the entry recorded
/// last winning.
pub open spec fn cmap_lookup(s: Seq<(Seq<char>, VJsxElement)>, k: Seq<char>) -> Option<VJsxElement>
    decreases s.len(),
{
    if s.len() == 0 {
        None
    } else if s.last().0 == k {
        Some(s.last().1)
    } else {
        cmap_lookup(s.drop_last(), k)
    }
}

fn cmap_get<'a>(cmap: &'a Vec<(String, JsxElement)>, name: &String) -> (r: Option<&'a JsxElement>)
    ensures
        r matches Some(t) ==> cmap_lookup(view_cmap(cmap@), name@) == Some(view_jsx_element(*t)),
        r is None ==> cmap_lookup(view_cmap(cmap@), name@) is None,
{
    let ghost s = cmap@;
    let mut i = cmap.len();
    proof {
        assert(s.take(i as int) =~= s);
    }
    while i > 0
        invariant
            i <= cmap.len(),
            s == cmap@,
            cmap_lookup(view_cmap(s), name@) == cmap_lookup(view_cmap(s.take(i as int)), name@),
        decreases i,
    {
        i = i - 1;
        proof {
            assert(s.take(i as int + 1).last() == s[i as int]);
            assert(s.take(i as int + 1).drop_last() =~= s.take(i as int));
            assert(view_cmap(s.take(i as int + 1)).last() == (
                s[i as int].0@,
                view_jsx_element(s[i as int].1),
            ));
            assert(view_cmap(s.take(i as int + 1)).drop_last() =~= view_cmap(s.take(i as int)));
        }
        if cmap[i].0.eq(name) {
            return Some(&cmap[i].1);
        }
    }
    None
}

/// What one direct child becomes: an element whose tag is in the component
/// map takes the template's opening (name and attributes), keeps its own
/// parsed children, and is self-closing exactly when it has none; everything
/// else stays as it is.
pub open spec fn splice_child_spec(c: VJsxChild, cmap: Seq<(Seq<char>, VJsxElement)>) -> VJsxChild {
    match c {
        VJsxChild::Element(el) => match cmap_lookup(cmap, el.name) {
            Some(tpl) => VJsxChild::Element(
                VJsxElement {
                    name: tpl.name,
                    attrs: tpl.attrs,
                    self_closing: el.children.len() == 0,
                    children: el.children,
                    span: zero_span(),
                },
            ),
            None => c,
        },
        _ => c,
    }
}

pub open spec fn splice_children_spec(cs: Seq<VJsxChild>, cmap: Seq<(Seq<char>, VJsxElement)>) -> Seq<
    VJsxChild,
> {
    cs.map_values(|c: VJsxChild| splice_child_spec(c, cmap))
}

pub open spec fn has_element_child(cs: Seq<VJsxChild>) -> bool {
    exists|i: int| 0 <= i < cs.len() && cs[i] is Element
}

/// What splicing a resolved text against a component map yields: nothing
/// when the text does not parse as one whole fragment; the text itself as a
/// string literal when no direct child is an element; otherwise the fragment
/// with each direct child spliced.
pub open spec fn spec_splice(text: Seq<char>, cmap: Seq<(Seq<char>, VJsxElement)>) -> Option<VExpr> {
    match spec_parse_items(text, 0) {
        None => None,
        Some((children, end)) => {
            if end != text.len() {
                None
            } else if !has_element_child(children) {
                Some(VExpr::Str(VStrLit { value: text, span: zero_span() }))
            } else {
                Some(VExpr::JsxFrag(splice_children_spec(children, cmap)))
            }
        },
    }
}

fn splice_child(c: &JsxChild, cmap: &Vec<(String, JsxElement)>) -> (r: JsxChild)
    ensures
        view_jsx_child(r) == splice_child_spec(view_jsx_child(*c), view_cmap(cmap@)),
{
    match c {
        JsxChild::Element(el) => {
            match cmap_get(cmap, &el.name) {
                Some(tpl) => {
                    let out = JsxElement {
                        name: tpl.name.clone(),
                        attrs: copy_attrs(&tpl.attrs),
                        self_closing: el.children.len() == 0,
                        children: copy_children(&el.children),
                        span: make_zero_span(),
                    };
                    proof {
                        lemma_view_children_index(el.children@);
                    }
                    JsxChild::Element(out)
                },
                None => copy_jsx_child(c),
            }
        },
        _ => copy_jsx_child(c),
    }
}

/// Splices a resolved text against a component map: a plain string literal
/// when the text holds no markup, the rewritten fragment otherwise; fails
/// when the text cannot be parsed as a fragment.
pub fn splice_markup(message: &str, cmap: &Vec<(String, JsxElement)>) -> (r: Result<Expr, ()>)
    ensures
        r matches Ok(e) ==> Some(view_expr(e)) == spec_splice(message@, view_cmap(cmap@)),
        (r is Err) <==> spec_splice(message@, view_cmap(cmap@)) is None,
{
    let n = message.unicode_len();
    match parse_items(message, 0) {
        Err(()) => Err(()),
        Ok((children, end)) => {
            if end != n {
                Err(())
            } else {
                proof {
                    lemma_view_children_index(children@);
                }
                let mut has_el = false;
                let m = children.len();
                let mut i: usize = 0;
                while i < m
                    invariant
                        i <= m,
                        m == children@.len(),
                        has_el == has_element_child(view_children(children@).take(i as int)),
                        view_children(children@).len() == m,
                        forall|j: int| #![auto] 0 <= j < m ==> view_children(children@)[j]
                            == view_jsx_child(children@[j]),
                    decreases m - i,
                {
                    let is_el = match &children[i] {
                        JsxChild::Element(_) => true,
                        _ => false,
                    };
                    proof {
                        let vcs = view_children(children@);
                        assert(vcs.take(i as int + 1) =~= vcs.take(i as int).push(vcs[i as int]));
                        if is_el {
                            assert(vcs[i as int] is Element);
                            assert(vcs.take(i as int + 1)[i as int] is Element);
                            assert(has_element_child(vcs.take(i as int + 1)));
                        } else if has_el {
                            let j = choose|j: int|
                                0 <= j < i as int && #[trigger] vcs.take(i as int)[j] is Element;
                            assert(vcs.take(i as int + 1)[j] is Element);
                            assert(has_element_child(vcs.take(i as int + 1)));
                        } else {
                            assert forall|j: int|
                                0 <= j < i as int + 1 implies !(#[trigger] vcs.take(
                                i as int + 1,
                            )[j] is Element) by {
                                if j < i as int {
                                    assert(vcs.take(i as int + 1)[j] == vcs.take(i as int)[j]);
                                } else {
                                    assert(vcs.take(i as int + 1)[j] == vcs[i as int]);
                                }
                            }
                            assert(!has_element_child(vcs.take(i as int + 1)));
                        }
                    }
                    if is_el {
                        has_el = true;
                    }
                    i = i + 1;
                }
                proof {
                    assert(view_children(children@).take(m as int) =~= view_children(children@));
                }
                if !has_el {
                    Ok(Expr::Str(StrLit { value: message.to_owned(), span: make_zero_span() }))
                } else {
                    let mut mapped: Vec<JsxChild> = Vec::new();
                    let mut i2: usize = 0;
                    while i2 < m
                        invariant
                            i2 <= m,
                            m == children@.len(),
                            mapped@.len() == i2,
                            forall|j: int| #![auto] 0 <= j < i2 ==> view_jsx_child(mapped@[j])
                                == splice_child_spec(view_jsx_child(children@[j]), view_cmap(cmap@)),
                        decreases m - i2,
                    {
                        mapped.push(splice_child(&children[i2], cmap));
                        i2 = i2 + 1;
                    }
                    proof {
                        lemma_view_children_index(mapped@);
                        lemma_view_children_index(children@);
                        assert(view_children(mapped@) =~= splice_children_spec(
                            view_children(children@),
                            view_cmap(cmap@),
                        ));
                    }
                    Ok(Expr::JsxFrag(mapped))
                }
            }
        },
    }
}

/// Law: when the resolved text parses and none of its direct children is an
/// element, splicing collapses to a plain string literal holding exactly the
/// resolved text, whatever the component map.
pub proof fn lemma_splice_no_elements(text: Seq<char>, cmap: Seq<(Seq<char>, VJsxElement)>)
    requires
        spec_parse_items(text, 0) matches Some((children, end)) && end == text.len()
            && !has_element_child(children),
    ensures
        spec_splice(text, cmap) == Some(
            VExpr::Str(VStrLit { value: text, span: zero_span() }),
        ),
{
}

/// Law: when some direct child is an element, the splice keeps the fragment
/// shape, and each child whose tag the component map names takes exactly the
/// template's tag and attributes while keeping its own children.
pub proof fn lemma_splice_substitution(text: Seq<char>, cmap: Seq<(Seq<char>, VJsxElement)>, i: int)
    requires
        spec_parse_items(text, 0) matches Some((children, end)) && end == text.len()
            && has_element_child(children),
        0 <= i < spec_parse_items(text, 0)->Some_0.0.len(),
    ensures
        spec_splice(text, cmap) matches Some(e) && e matches VExpr::JsxFrag(mapped)
            && mapped.len() == spec_parse_items(text, 0)->Some_0.0.len() && mapped[i]
            == splice_child_spec(spec_parse_items(text, 0)->Some_0.0[i], cmap),
{
}

} // verus!
