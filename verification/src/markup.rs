//! A structured scanner for the watchlist markup document.
//!
//! The source returns an angle-bracket markup document. The scanner walks
//! it character by character, recognises element start tags, and parses
//! each tag's attribute list properly: names and quoted values in any
//! order, with either quote character, and with the common named
//! character references decoded. Anything that is not a well-formed
//! start tag is skipped, never guessed at.
//!
//! The grammar lives in recursive spec functions; each executable
//! function returns exactly what its spec counterpart describes.

use vstd::prelude::*;

verus! {

/// One parsed attribute of a start tag.
#[derive(Clone, Debug)]
pub struct Attr {
    pub name: Vec<char>,
    pub value: Vec<char>,
}

/// One parsed element start tag: its name and its attributes in order.
#[derive(Clone, Debug)]
pub struct Element {
    pub name: Vec<char>,
    pub attrs: Vec<Attr>,
}

/// Mathematical image of an attribute.
pub struct AttrV {
    pub name: Seq<char>,
    pub value: Seq<char>,
}

/// Mathematical image of an element start tag.
pub struct ElementV {
    pub name: Seq<char>,
    pub attrs: Seq<AttrV>,
}

impl View for Attr {
    type V = AttrV;

    open spec fn view(&self) -> AttrV {
        AttrV { name: self.name@, value: self.value@ }
    }
}

impl View for Element {
    type V = ElementV;

    open spec fn view(&self) -> ElementV {
        ElementV { name: self.name@, attrs: self.attrs@.map_values(|a: Attr| a@) }
    }
}

pub open spec fn is_ws(c: char) -> bool {
    c == ' ' || c == '\t' || c == '\n' || c == '\r'
}

pub open spec fn is_alpha(c: char) -> bool {
    ('a' as u32 <= c as u32 && c as u32 <= 'z' as u32) || ('A' as u32 <= c as u32 && c as u32
        <= 'Z' as u32)
}

pub open spec fn is_digit(c: char) -> bool {
    '0' as u32 <= c as u32 && c as u32 <= '9' as u32
}

/// A character that may open an element or attribute name.
pub open spec fn is_name_start(c: char) -> bool {
    is_alpha(c) || c == '_' || c == ':'
}

/// A character that may continue a name.
pub open spec fn is_name_char(c: char) -> bool {
    is_alpha(c) || is_digit(c) || c == '-' || c == '_' || c == '.' || c == ':'
}

/// First position at or after `i` holding no whitespace, or the end.
pub open spec fn spec_skip_ws(s: Seq<char>, i: int) -> int
    decreases s.len() - i,
{
    if i < s.len() && is_ws(s[i]) {
        spec_skip_ws(s, i + 1)
    } else {
        i
    }
}

/// First position at or after `i` whose character no longer belongs to a
/// name, or the end.
pub open spec fn spec_name_end(s: Seq<char>, i: int) -> int
    decreases s.len() - i,
{
    if i < s.len() && is_name_char(s[i]) {
        spec_name_end(s, i + 1)
    } else {
        i
    }
}

/// Position just after the next `'>'` at or after `i`, or the end: where
/// scanning resumes after a malformed tag.
pub open spec fn spec_resync(s: Seq<char>, i: int) -> int
    decreases s.len() - i,
{
    if i >= s.len() {
        s.len() as int
    } else if s[i] == '>' {
        i + 1
    } else {
        spec_resync(s, i + 1)
    }
}

/// The character reference starting at `i` (where `s[i] == '&'`): the
/// decoded character and how many characters the reference spans. An
/// unknown or unterminated reference stands for a literal ampersand.
pub open spec fn entity_at(s: Seq<char>, i: int) -> (char, int) {
    if i + 4 < s.len() && s[i + 1] == 'a' && s[i + 2] == 'm' && s[i + 3] == 'p' && s[i + 4]
        == ';' {
        ('&', 5)
    } else if i + 3 < s.len() && s[i + 1] == 'l' && s[i + 2] == 't' && s[i + 3] == ';' {
        ('<', 4)
    } else if i + 3 < s.len() && s[i + 1] == 'g' && s[i + 2] == 't' && s[i + 3] == ';' {
        ('>', 4)
    } else if i + 5 < s.len() && s[i + 1] == 'q' && s[i + 2] == 'u' && s[i + 3] == 'o' && s[i
        + 4] == 't' && s[i + 5] == ';' {
        ('"', 6)
    } else if i + 5 < s.len() && s[i + 1] == 'a' && s[i + 2] == 'p' && s[i + 3] == 'o' && s[i
        + 4] == 's' && s[i + 5] == ';' {
        ('\'', 6)
    } else {
        ('&', 1)
    }
}

/// The attribute value read from `i` up to the closing quote `q`, with
/// character references decoded, and the position just after the quote.
/// `None` when the document ends before the quote closes.
pub open spec fn val_from(s: Seq<char>, i: int, q: char) -> Option<(Seq<char>, int)>
    decreases s.len() - i,
    when i <= s.len()
{
    if i >= s.len() {
        None
    } else if s[i] == q {
        Some((Seq::empty(), i + 1))
    } else if s[i] == '&' {
        let e = entity_at(s, i);
        match val_from(s, i + e.1, q) {
            Some(p) => Some((seq![e.0] + p.0, p.1)),
            None => None,
        }
    } else {
        match val_from(s, i + 1, q) {
            Some(p) => Some((seq![s[i]] + p.0, p.1)),
            None => None,
        }
    }
}

pub proof fn lemma_entity_bounds(s: Seq<char>, i: int)
    requires
        i < s.len(),
    ensures
        1 <= entity_at(s, i).1,
        i + entity_at(s, i).1 <= s.len(),
{
}

pub proof fn lemma_val_from_bounds(s: Seq<char>, i: int, q: char)
    requires
        0 <= i <= s.len(),
        val_from(s, i, q) is Some,
    ensures
        i < (val_from(s, i, q)->0).1 <= s.len(),
    decreases s.len() - i,
{
    if i >= s.len() {
    } else if s[i] == q {
    } else if s[i] == '&' {
        lemma_entity_bounds(s, i);
        let e = entity_at(s, i);
        if val_from(s, i + e.1, q) is Some {
            lemma_val_from_bounds(s, i + e.1, q);
        }
    } else {
        if val_from(s, i + 1, q) is Some {
            lemma_val_from_bounds(s, i + 1, q);
        }
    }
}

pub proof fn lemma_skip_ws_bounds(s: Seq<char>, i: int)
    requires
        i <= s.len(),
    ensures
        i <= spec_skip_ws(s, i) <= s.len(),
    decreases s.len() - i,
{
    if i < s.len() && is_ws(s[i]) {
        lemma_skip_ws_bounds(s, i + 1);
    }
}

pub proof fn lemma_name_end_bounds(s: Seq<char>, i: int)
    requires
        i <= s.len(),
    ensures
        i <= spec_name_end(s, i) <= s.len(),
    decreases s.len() - i,
{
    if i < s.len() && is_name_char(s[i]) {
        lemma_name_end_bounds(s, i + 1);
    }
}

pub proof fn lemma_resync_bounds(s: Seq<char>, i: int)
    requires
        i <= s.len(),
    ensures
        i <= spec_resync(s, i) <= s.len(),
    decreases s.len() - i,
{
    if i >= s.len() {
    } else if s[i] == '>' {
    } else {
        lemma_resync_bounds(s, i + 1);
    }
}

/// The attribute list read from `i` up to and past the closing `'>'` (or
/// `'/>'`): the attributes in order and the position just after the tag.
/// `None` when the tag is malformed or unterminated.
pub open spec fn attrs_from(s: Seq<char>, i: int) -> Option<(Seq<AttrV>, int)>
    decreases s.len() - i,
    when 0 <= i <= s.len()
    via attrs_from_dec
{
    let i2 = spec_skip_ws(s, i);
    if i2 >= s.len() {
        None
    } else if s[i2] == '>' {
        Some((Seq::empty(), i2 + 1))
    } else if s[i2] == '/' && i2 + 1 < s.len() && s[i2 + 1] == '>' {
        Some((Seq::empty(), i2 + 2))
    } else if is_name_char(s[i2]) {
        let n_end = spec_name_end(s, i2);
        let j = spec_skip_ws(s, n_end);
        if j >= s.len() || s[j] != '=' {
            None
        } else {
            let k = spec_skip_ws(s, j + 1);
            if k >= s.len() || !(s[k] == '"' || s[k] == '\'') {
                None
            } else {
                match val_from(s, k + 1, s[k]) {
                    Some(p) => {
                        match attrs_from(s, p.1) {
                            Some(rest) => Some(
                                (
                                    seq![AttrV { name: s.subrange(i2, n_end), value: p.0 }]
                                        + rest.0,
                                    rest.1,
                                ),
                            ),
                            None => None,
                        }
                    },
                    None => None,
                }
            }
        }
    } else {
        None
    }
}

#[via_fn]
proof fn attrs_from_dec(s: Seq<char>, i: int) {
    lemma_skip_ws_bounds(s, i);
    let i2 = spec_skip_ws(s, i);
    if i2 < s.len() && is_name_char(s[i2]) {
        lemma_name_end_bounds(s, i2 + 1);
        let n_end = spec_name_end(s, i2);
        lemma_skip_ws_bounds(s, n_end);
        let j = spec_skip_ws(s, n_end);
        if j < s.len() && s[j] == '=' {
            lemma_skip_ws_bounds(s, j + 1);
            let k = spec_skip_ws(s, j + 1);
            if k < s.len() && (s[k] == '"' || s[k] == '\'') {
                if val_from(s, k + 1, s[k]) is Some {
                    lemma_val_from_bounds(s, k + 1, s[k]);
                }
            }
        }
    }
}

pub proof fn lemma_attrs_from_bounds(s: Seq<char>, i: int)
    requires
        0 <= i <= s.len(),
        attrs_from(s, i) is Some,
    ensures
        i < (attrs_from(s, i)->0).1 <= s.len(),
    decreases s.len() - i,
{
    lemma_skip_ws_bounds(s, i);
    let i2 = spec_skip_ws(s, i);
    if i2 >= s.len() {
    } else if s[i2] == '>' {
    } else if s[i2] == '/' && i2 + 1 < s.len() && s[i2 + 1] == '>' {
    } else if is_name_char(s[i2]) {
        lemma_name_end_bounds(s, i2 + 1);
        let n_end = spec_name_end(s, i2);
        lemma_skip_ws_bounds(s, n_end);
        let j = spec_skip_ws(s, n_end);
        if j < s.len() && s[j] == '=' {
            lemma_skip_ws_bounds(s, j + 1);
            let k = spec_skip_ws(s, j + 1);
            if k < s.len() && (s[k] == '"' || s[k] == '\'') {
                if val_from(s, k + 1, s[k]) is Some {
                    lemma_val_from_bounds(s, k + 1, s[k]);
                    let p = val_from(s, k + 1, s[k])->0;
                    if attrs_from(s, p.1) is Some {
                        lemma_attrs_from_bounds(s, p.1);
                    }
                }
            }
        }
    }
}

/// The start tag whose name begins at `i`: the element and the position
/// just after the tag, or `None` when the tag is malformed.
pub open spec fn tag_at(s: Seq<char>, i: int) -> Option<(ElementV, int)> {
    let n_end = spec_name_end(s, i);
    match attrs_from(s, n_end) {
        Some(p) => Some((ElementV { name: s.subrange(i, n_end), attrs: p.0 }, p.1)),
        None => None,
    }
}

pub proof fn lemma_tag_at_bounds(s: Seq<char>, i: int)
    requires
        0 <= i <= s.len(),
        tag_at(s, i) is Some,
    ensures
        i < (tag_at(s, i)->0).1 <= s.len(),
{
    lemma_name_end_bounds(s, i);
    let n_end = spec_name_end(s, i);
    lemma_attrs_from_bounds(s, n_end);
}

/// Every element start tag of the document from position `i` on, in
/// order. Malformed tags and everything that is not a start tag are
/// passed over.
pub open spec fn scan_from(s: Seq<char>, i: int) -> Seq<ElementV>
    decreases s.len() - i,
    when 0 <= i
    via scan_from_dec
{
    if i >= s.len() {
        Seq::empty()
    } else if s[i] == '<' && i + 1 < s.len() && is_name_start(s[i + 1]) {
        match tag_at(s, i + 1) {
            Some(p) => seq![p.0] + scan_from(s, p.1),
            None => scan_from(s, spec_resync(s, i + 1)),
        }
    } else {
        scan_from(s, i + 1)
    }
}

#[via_fn]
proof fn scan_from_dec(s: Seq<char>, i: int) {
    if i < s.len() && s[i] == '<' && i + 1 < s.len() && is_name_start(s[i + 1]) {
        if tag_at(s, i + 1) is Some {
            lemma_tag_at_bounds(s, i + 1);
        }
        lemma_resync_bounds(s, i + 1);
    }
}

/// The attribute images of a list of attributes, in order.
pub open spec fn attr_views(l: Seq<Attr>) -> Seq<AttrV> {
    l.map_values(|a: Attr| a@)
}

/// The element images of a list of elements, in order.
pub open spec fn elem_views(l: Seq<Element>) -> Seq<ElementV> {
    l.map_values(|e: Element| e@)
}

fn ws(c: char) -> (b: bool)
    ensures
        b == is_ws(c),
{
    c == ' ' || c == '\t' || c == '\n' || c == '\r'
}

fn name_start_char(c: char) -> (b: bool)
    ensures
        b == is_name_start(c),
{
    let u = c as u32;
    ('a' as u32 <= u && u <= 'z' as u32) || ('A' as u32 <= u && u <= 'Z' as u32) || c == '_'
        || c == ':'
}

fn name_char(c: char) -> (b: bool)
    ensures
        b == is_name_char(c),
{
    let u = c as u32;
    ('a' as u32 <= u && u <= 'z' as u32) || ('A' as u32 <= u && u <= 'Z' as u32) || ('0' as u32
        <= u && u <= '9' as u32) || c == '-' || c == '_' || c == '.' || c == ':'
}

fn skip_ws(v: &Vec<char>, i: usize) -> (r: usize)
    requires
        i <= v@.len(),
    ensures
        r as int == spec_skip_ws(v@, i as int),
        i <= r <= v@.len(),
{
    let n = v.len();
    let mut j = i;
    let mut stop = j == n || !ws(v[j]);
    while !stop
        invariant
            i <= j <= n,
            n == v@.len(),
            spec_skip_ws(v@, i as int) == spec_skip_ws(v@, j as int),
            stop == (j == v@.len() || !is_ws(v@[j as int])),
        decreases v@.len() - j,
    {
        j = j + 1;
        stop = j == n || !ws(v[j]);
    }
    j
}

fn name_end(v: &Vec<char>, i: usize) -> (r: usize)
    requires
        i <= v@.len(),
    ensures
        r as int == spec_name_end(v@, i as int),
        i <= r <= v@.len(),
{
    let n = v.len();
    let mut j = i;
    let mut stop = j == n || !name_char(v[j]);
    while !stop
        invariant
            i <= j <= n,
            n == v@.len(),
            spec_name_end(v@, i as int) == spec_name_end(v@, j as int),
            stop == (j == v@.len() || !is_name_char(v@[j as int])),
        decreases v@.len() - j,
    {
        j = j + 1;
        stop = j == n || !name_char(v[j]);
    }
    j
}

fn resync(v: &Vec<char>, i: usize) -> (r: usize)
    requires
        i <= v@.len(),
    ensures
        r as int == spec_resync(v@, i as int),
        i <= r <= v@.len(),
{
    let n = v.len();
    let mut j = i;
    let mut stop = j == n || v[j] == '>';
    while !stop
        invariant
            i <= j <= n,
            n == v@.len(),
            spec_resync(v@, i as int) == spec_resync(v@, j as int),
            stop == (j == v@.len() || v@[j as int] == '>'),
        decreases v@.len() - j,
    {
        j = j + 1;
        stop = j == n || v[j] == '>';
    }
    if j == n {
        j
    } else {
        j + 1
    }
}

/// A fresh vector holding the characters of `v` from `a` up to `b`.
fn copy_range(v: &Vec<char>, a: usize, b: usize) -> (out: Vec<char>)
    requires
        a <= b <= v@.len(),
    ensures
        out@ == v@.subrange(a as int, b as int),
{
    let mut out: Vec<char> = Vec::new();
    let mut k = a;
    while k < b
        invariant
            a <= k <= b <= v@.len(),
            out@ =~= v@.subrange(a as int, k as int),
        decreases b - k,
    {
        out.push(v[k]);
        k = k + 1;
        proof {
            assert(out@ =~= v@.subrange(a as int, k as int));
        }
    }
    proof {
        assert(out@ =~= v@.subrange(a as int, b as int));
    }
    out
}

fn entity(v: &Vec<char>, i: usize) -> (r: (char, usize))
    requires
        i < v@.len(),
    ensures
        r.0 == entity_at(v@, i as int).0,
        r.1 as int == entity_at(v@, i as int).1,
        1 <= r.1,
        i + r.1 <= v@.len(),
{
    let n = v.len();
    if n - i > 4 && v[i + 1] == 'a' && v[i + 2] == 'm' && v[i + 3] == 'p' && v[i + 4] == ';' {
        ('&', 5)
    } else if n - i > 3 && v[i + 1] == 'l' && v[i + 2] == 't' && v[i + 3] == ';' {
        ('<', 4)
    } else if n - i > 3 && v[i + 1] == 'g' && v[i + 2] == 't' && v[i + 3] == ';' {
        ('>', 4)
    } else if n - i > 5 && v[i + 1] == 'q' && v[i + 2] == 'u' && v[i + 3] == 'o' && v[i + 4]
        == 't' && v[i + 5] == ';' {
        ('"', 6)
    } else if n - i > 5 && v[i + 1] == 'a' && v[i + 2] == 'p' && v[i + 3] == 'o' && v[i + 4]
        == 's' && v[i + 5] == ';' {
        ('\'', 6)
    } else {
        ('&', 1)
    }
}

/// What `scan_value` must return: exactly what `val_from` describes.
pub open spec fn scan_value_post(s: Seq<char>, start: int, q: char, r: Option<
    (Vec<char>, usize),
>) -> bool {
    match r {
        Some(p) => val_from(s, start, q) == Some((p.0@, p.1 as int)),
        None => val_from(s, start, q) is None,
    }
}

fn scan_value(v: &Vec<char>, start: usize, q: char) -> (r: Option<(Vec<char>, usize)>)
    requires
        start <= v@.len(),
    ensures
        scan_value_post(v@, start as int, q, r),
{
    let mut out: Vec<char> = Vec::new();
    let mut i = start;
    loop
        invariant
            start <= i <= v@.len(),
            val_from(v@, i as int, q) is Some ==> {
                &&& val_from(v@, start as int, q) is Some
                &&& (val_from(v@, start as int, q)->0).0 == out@ + (val_from(
                    v@,
                    i as int,
                    q,
                )->0).0
                &&& (val_from(v@, start as int, q)->0).1 == (val_from(v@, i as int, q)->0).1
            },
            val_from(v@, i as int, q) is None ==> val_from(v@, start as int, q) is None,
        decreases v@.len() - i,
    {
        if i == v.len() {
            return None;
        }
        let c = v[i];
        if c == q {
            proof {
                assert(out@ + Seq::<char>::empty() =~= out@);
            }
            return Some((out, i + 1));
        }
        if c == '&' {
            let (dc, d) = entity(v, i);
            let ghost prev = out@;
            out.push(dc);
            i = i + d;
            proof {
                if val_from(v@, i as int, q) is Some {
                    let p0 = (val_from(v@, i as int, q)->0).0;
                    assert(out@ + p0 =~= prev + (seq![dc] + p0));
                }
            }
        } else {
            let ghost prev = out@;
            out.push(c);
            i = i + 1;
            proof {
                if val_from(v@, i as int, q) is Some {
                    let p0 = (val_from(v@, i as int, q)->0).0;
                    assert(out@ + p0 =~= prev + (seq![c] + p0));
                }
            }
        }
    }
}

/// What `parse_attrs` must return: exactly what `attrs_from` describes.
pub open spec fn parse_attrs_post(s: Seq<char>, i: int, r: Option<(Vec<Attr>, usize)>) -> bool {
    match r {
        Some(p) => attrs_from(s, i) == Some((attr_views(p.0@), p.1 as int)),
        None => attrs_from(s, i) is None,
    }
}

fn parse_attrs(v: &Vec<char>, i0: usize) -> (r: Option<(Vec<Attr>, usize)>)
    requires
        i0 <= v@.len(),
    ensures
        parse_attrs_post(v@, i0 as int, r),
{
    let mut out: Vec<Attr> = Vec::new();
    let mut i = i0;
    loop
        invariant
            i0 <= i <= v@.len(),
            attrs_from(v@, i as int) is Some ==> {
                &&& attrs_from(v@, i0 as int) is Some
                &&& (attrs_from(v@, i0 as int)->0).0 == attr_views(out@) + (attrs_from(
                    v@,
                    i as int,
                )->0).0
                &&& (attrs_from(v@, i0 as int)->0).1 == (attrs_from(v@, i as int)->0).1
            },
            attrs_from(v@, i as int) is None ==> attrs_from(v@, i0 as int) is None,
        decreases v@.len() - i,
    {
        let i2 = skip_ws(v, i);
        if i2 == v.len() {
            return None;
        }
        let c = v[i2];
        if c == '>' {
            proof {
                assert(attr_views(out@) + Seq::<AttrV>::empty() =~= attr_views(out@));
            }
            return Some((out, i2 + 1));
        }
        if c == '/' && v.len() - i2 > 1 && v[i2 + 1] == '>' {
            proof {
                assert(attr_views(out@) + Seq::<AttrV>::empty() =~= attr_views(out@));
            }
            return Some((out, i2 + 2));
        }
        if !name_char(c) {
            return None;
        }
        let n_end = name_end(v, i2);
        let j = skip_ws(v, n_end);
        if j == v.len() {
            return None;
        }
        if v[j] != '=' {
            return None;
        }
        let k = skip_ws(v, j + 1);
        if k == v.len() {
            return None;
        }
        let q = v[k];
        if !(q == '"' || q == '\'') {
            return None;
        }
        match scan_value(v, k + 1, q) {
            None => {
                return None;
            },
            Some((val, m)) => {
                let ghost iold = i as int;
                let ghost prevs = attr_views(out@);
                let ghost headv = AttrV {
                    name: v@.subrange(i2 as int, n_end as int),
                    value: val@,
                };
                let name = copy_range(v, i2, n_end);
                let a = Attr { name, value: val };
                proof {
                    assert(a@ == headv);
                    lemma_val_from_bounds(v@, k as int + 1, q);
                }
                out.push(a);
                i = m;
                proof {
                    assert(attr_views(out@) =~= prevs + seq![headv]) by {
                        assert(forall|t: int|
                            0 <= t < out@.len() ==> attr_views(out@)[t] == #[trigger] out@[t]@);
                    }
                    if attrs_from(v@, i as int) is Some {
                        let rest = (attrs_from(v@, i as int)->0).0;
                        assert(attrs_from(v@, iold) is Some);
                        assert((attrs_from(v@, iold)->0).0 == seq![headv] + rest);
                        assert(attr_views(out@) + rest =~= prevs + (seq![headv] + rest));
                    }
                }
            },
        }
    }
}

/// What `parse_tag` must return: exactly what `tag_at` describes.
pub open spec fn parse_tag_post(s: Seq<char>, i: int, r: Option<(Element, usize)>) -> bool {
    match r {
        Some(p) => tag_at(s, i) == Some((p.0@, p.1 as int)),
        None => tag_at(s, i) is None,
    }
}

fn parse_tag(v: &Vec<char>, i: usize) -> (r: Option<(Element, usize)>)
    requires
        i <= v@.len(),
    ensures
        parse_tag_post(v@, i as int, r),
{
    let n_end = name_end(v, i);
    match parse_attrs(v, n_end) {
        None => None,
        Some((attrs, end)) => {
            let name = copy_range(v, i, n_end);
            let e = Element { name, attrs };
            proof {
                assert(e@.name == v@.subrange(i as int, spec_name_end(v@, i as int)));
                assert(e@.attrs == (attrs_from(v@, n_end as int)->0).0);
                assert(tag_at(v@, i as int)->0 == (e@, end as int));
            }
            Some((e, end))
        },
    }
}

/// Scan the whole document for element start tags, in document order.
pub fn scan_elements(v: &Vec<char>) -> (out: Vec<Element>)
    ensures
        elem_views(out@) == scan_from(v@, 0),
{
    let mut out: Vec<Element> = Vec::new();
    let mut i: usize = 0;
    while i < v.len()
        invariant
            i <= v@.len(),
            scan_from(v@, 0) == elem_views(out@) + scan_from(v@, i as int),
        decreases v@.len() - i,
    {
        let c = v[i];
        if c == '<' && v.len() - i > 1 && name_start_char(v[i + 1]) {
            match parse_tag(v, i + 1) {
                Some((e, j)) => {
                    let ghost iold = i as int;
                    let ghost prevs = elem_views(out@);
                    proof {
                        lemma_tag_at_bounds(v@, iold + 1);
                    }
                    out.push(e);
                    i = j;
                    proof {
                        assert(elem_views(out@) =~= prevs + seq![e@]) by {
                            assert(forall|t: int|
                                0 <= t < out@.len() ==> elem_views(out@)[t] == #[trigger] out@[t]@);
                        }
                        assert(scan_from(v@, iold) == seq![e@] + scan_from(v@, i as int));
                        assert(elem_views(out@) + scan_from(v@, i as int) =~= prevs + (seq![e@]
                            + scan_from(v@, i as int)));
                    }
                },
                None => {
                    let r = resync(v, i + 1);
                    proof {
                        assert(scan_from(v@, i as int) == scan_from(v@, r as int));
                    }
                    i = r;
                },
            }
        } else {
            i = i + 1;
        }
    }
    proof {
        assert(scan_from(v@, i as int) =~= Seq::<ElementV>::empty());
        assert(elem_views(out@) + Seq::<ElementV>::empty() =~= elem_views(out@));
    }
    out
}

} // verus!
