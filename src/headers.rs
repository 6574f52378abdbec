//! Decoding of raw header blocks into a map from header names to values.
use vstd::prelude::*;

use crate::text::{
    chars_of, is_whitespace, is_ws, lemma_trim_push_ws, text_of, trim, trimmed_range, utf8_str,
};

verus! {

/// The map that results from inserting the pairs of `s` in order, a later
/// pair replacing an earlier one with the same key.
pub open spec fn entries_map(s: Seq<(Seq<char>, Seq<char>)>) -> Map<Seq<char>, Seq<char>>
    decreases s.len(),
{
    if s.len() == 0 {
        Map::empty()
    } else {
        entries_map(s.drop_last()).insert(s.last().0, s.last().1)
    }
}

/// No two pairs of `s` share a key.
pub open spec fn keys_unique(s: Seq<(Seq<char>, Seq<char>)>) -> bool {
    forall|i: int, j: int| 0 <= i < j < s.len() ==> s[i].0 != s[j].0
}

proof fn lemma_entries_lookup(s: Seq<(Seq<char>, Seq<char>)>)
    requires
        keys_unique(s),
    ensures
        forall|i: int|
            0 <= i < s.len() ==> #[trigger] entries_map(s).contains_key(s[i].0) && entries_map(
                s,
            )[s[i].0] == s[i].1,
        forall|k: Seq<char>|
            #[trigger] entries_map(s).contains_key(k) ==> exists|i: int|
                0 <= i < s.len() && s[i].0 == k,
        entries_map(s).dom().finite(),
        entries_map(s).len() == s.len(),
    decreases s.len(),
{
    if s.len() > 0 {
        let p = s.drop_last();
        lemma_entries_lookup(p);
        assert forall|i: int| 0 <= i < s.len() implies #[trigger] entries_map(s).contains_key(
            s[i].0,
        ) && entries_map(s)[s[i].0] == s[i].1 by {
            if i < s.len() - 1 {
                assert(p[i] == s[i]);
                assert(s[i].0 != s[s.len() - 1].0);
            }
        }
        assert forall|k: Seq<char>| #[trigger] entries_map(s).contains_key(k) implies exists|i: int|
            0 <= i < s.len() && s[i].0 == k by {
            if k != s.last().0 {
                let i = choose|i: int| 0 <= i < p.len() && p[i].0 == k;
                assert(s[i].0 == k);
            } else {
                assert(s[s.len() - 1].0 == k);
            }
        }
        assert(!entries_map(p).contains_key(s.last().0)) by {
            if entries_map(p).contains_key(s.last().0) {
                let i = choose|i: int| 0 <= i < p.len() && p[i].0 == s.last().0;
                assert(s[i].0 == s[s.len() - 1].0);
            }
        }
    }
}

proof fn lemma_entries_update(s: Seq<(Seq<char>, Seq<char>)>, i: int, v: Seq<char>)
    requires
        keys_unique(s),
        0 <= i < s.len(),
    ensures
        entries_map(s.update(i, (s[i].0, v))) == entries_map(s).insert(s[i].0, v),
    decreases s.len(),
{
    let t = s.update(i, (s[i].0, v));
    if i == s.len() - 1 {
        assert(t.drop_last() =~= s.drop_last());
        assert(entries_map(t) =~= entries_map(s).insert(s[i].0, v));
    } else {
        let p = s.drop_last();
        assert(t.drop_last() =~= p.update(i, (p[i].0, v)));
        lemma_entries_update(p, i, v);
        assert(s.last().0 != s[i].0);
        assert(entries_map(t) =~= entries_map(s).insert(s[i].0, v));
    }
}

/// Header names mapped to their values; where a name occurs twice, the later value holds.
pub struct HeaderMap {
    entries: Vec<(String, String)>,
}

impl HeaderMap {
    /// The name and value of each entry, in the order in which the names first came.
    pub closed spec fn entries_view(&self) -> Seq<(Seq<char>, Seq<char>)> {
        self.entries@.map_values(|e: (String, String)| (e.0@, e.1@))
    }

    /// Each name is held once.
    pub closed spec fn wf(&self) -> bool {
        keys_unique(self.entries_view())
    }

    /// An empty map.
    pub fn new() -> (r: HeaderMap)
        ensures
            r.wf(),
            r@ == Map::<Seq<char>, Seq<char>>::empty(),
    {
        let r = HeaderMap { entries: Vec::new() };
        assert(r.entries_view() =~= Seq::empty());
        r
    }

    /// Sets the value of `name` to `value`, replacing any earlier value.
    pub fn insert(&mut self, name: String, value: String)
        requires
            old(self).wf(),
        ensures
            final(self).wf(),
            final(self)@ == old(self)@.insert(name@, value@),
    {
        let ghost s = self.entries_view();
        let mut i: usize = 0;
        while i < self.entries.len()
            invariant
                0 <= i <= self.entries.len(),
                s == self.entries_view(),
                s == old(self).entries_view(),
                keys_unique(s),
                forall|j: int| 0 <= j < i ==> s[j].0 != name@,
            decreases self.entries.len() - i,
        {
            if self.entries[i].0 == name {
                assert(s[i as int].0 == name@);
                proof {
                    lemma_entries_update(s, i as int, value@);
                }
                self.entries.set(i, (name, value));
                assert(self.entries_view() =~= s.update(i as int, (s[i as int].0, value@)));
                return;
            }
            i = i + 1;
        }
        self.entries.push((name, value));
        assert(self.entries_view() =~= s.push((name@, value@)));
        assert(self.entries_view().drop_last() =~= s);
    }

    /// The value held for `name`, if any.
    pub fn get(&self, name: &str) -> (r: Option<&String>)
        requires
            self.wf(),
        ensures
            r is Some <==> self@.contains_key(name@),
            r matches Some(v) ==> v@ == self@[name@],
    {
        let key = name.to_owned();
        let ghost s = self.entries_view();
        let mut i: usize = 0;
        while i < self.entries.len()
            invariant
                0 <= i <= self.entries.len(),
                s == self.entries_view(),
                key@ == name@,
                keys_unique(s),
                forall|j: int| 0 <= j < i ==> s[j].0 != name@,
            decreases self.entries.len() - i,
        {
            if self.entries[i].0 == key {
                proof {
                    lemma_entries_lookup(s);
                }
                assert(s[i as int].0 == name@);
                assert(s[i as int].1 == self.entries@[i as int].1@);
                assert(entries_map(s).contains_key(s[i as int].0));
                assert(self@[name@] == s[i as int].1);
                return Some(&self.entries[i].1);
            }
            i = i + 1;
        }
        proof {
            lemma_entries_lookup(s);
        }
        None
    }

    /// The number of names held.
    pub fn len(&self) -> (r: usize)
        requires
            self.wf(),
        ensures
            r == self@.len(),
    {
        proof {
            lemma_entries_lookup(self.entries_view());
        }
        self.entries.len()
    }
}

impl View for HeaderMap {
    type V = Map<Seq<char>, Seq<char>>;

    closed spec fn view(&self) -> Map<Seq<char>, Seq<char>> {
        entries_map(self.entries_view())
    }
}


/// The segments of `t` between newline characters (a text that ends with a
/// newline has an empty last segment).
pub open spec fn split_lines(t: Seq<char>) -> Seq<Seq<char>>
    decreases t.len(),
{
    if t.len() == 0 {
        seq![Seq::empty()]
    } else {
        let prev = split_lines(t.drop_last());
        if t.last() == '\n' {
            prev.push(Seq::empty())
        } else {
            prev.update(prev.len() - 1, prev.last().push(t.last()))
        }
    }
}

/// A line that begins with whitespace continues the header before it.
pub open spec fn is_continuation(l: Seq<char>) -> bool {
    l.len() > 0 && is_ws(l[0])
}

/// `l` without one trailing carriage return, so that CRLF line ends read as LF.
pub open spec fn strip_cr(l: Seq<char>) -> Seq<char> {
    if l.len() > 0 && l.last() == '\r' {
        l.drop_last()
    } else {
        l
    }
}

/// The logical lines of a header block: each continuation line is appended to
/// the line before it; one with no line before it is dropped.
pub open spec fn unfold(lines: Seq<Seq<char>>) -> Seq<Seq<char>>
    decreases lines.len(),
{
    if lines.len() == 0 {
        Seq::empty()
    } else {
        let prev = unfold(lines.drop_last());
        let l = lines.last();
        if is_continuation(l) {
            if prev.len() > 0 {
                prev.update(prev.len() - 1, prev.last() + strip_cr(l))
            } else {
                prev
            }
        } else {
            prev.push(strip_cr(l))
        }
    }
}

/// `i` is the position of the first colon of `l`.
pub open spec fn is_first_colon(l: Seq<char>, i: int) -> bool {
    0 <= i < l.len() && l[i] == ':' && forall|j: int| 0 <= j < i ==> l[j] != ':'
}

/// The header that a logical line states: the trimmed text before its first
/// colon and the trimmed text after it; `None` for a line without a colon.
pub open spec fn header_of(l: Seq<char>) -> Option<(Seq<char>, Seq<char>)> {
    if exists|i: int| is_first_colon(l, i) {
        let i = choose|i: int| is_first_colon(l, i);
        Some((trim(l.subrange(0, i)), trim(l.subrange(i + 1, l.len() as int))))
    } else {
        None
    }
}

/// The map that the headers of the logical lines `ls` give, in order.
pub open spec fn insert_all(ls: Seq<Seq<char>>) -> Map<Seq<char>, Seq<char>>
    decreases ls.len(),
{
    if ls.len() == 0 {
        Map::empty()
    } else {
        let m = insert_all(ls.drop_last());
        match header_of(ls.last()) {
            Some(h) => m.insert(h.0, h.1),
            None => m,
        }
    }
}

/// The headers of a header block.
pub open spec fn headers_of(t: Seq<char>) -> Map<Seq<char>, Seq<char>> {
    insert_all(unfold(split_lines(t)))
}

/// The characters of each line of `v`.
pub open spec fn lines_view(v: Seq<Vec<char>>) -> Seq<Seq<char>> {
    v.map_values(|l: Vec<char>| l@)
}

proof fn lemma_split_lines_nonempty(t: Seq<char>)
    ensures
        split_lines(t).len() >= 1,
    decreases t.len(),
{
    if t.len() > 0 {
        lemma_split_lines_nonempty(t.drop_last());
    }
}

/// The newline-separated lines of `text`.
fn split_text_lines(text: &Vec<char>) -> (r: Vec<Vec<char>>)
    ensures
        lines_view(r@) == split_lines(text@),
{
    let mut lines: Vec<Vec<char>> = Vec::new();
    let mut cur: Vec<char> = Vec::new();
    let mut k: usize = 0;
    while k < text.len()
        invariant
            k <= text.len(),
            lines_view(lines@).push(cur@) == split_lines(text@.take(k as int)),
        decreases text.len() - k,
    {
        let c = text[k];
        let ghost before = lines_view(lines@).push(cur@);
        proof {
            lemma_split_lines_nonempty(text@.take(k as int));
            assert(text@.take(k + 1).drop_last() =~= text@.take(k as int));
        }
        if c == '\n' {
            lines.push(cur);
            cur = Vec::new();
            assert(lines_view(lines@).push(cur@) =~= before.push(Seq::empty()));
        } else {
            cur.push(c);
            assert(lines_view(lines@).push(cur@) =~= before.update(
                before.len() - 1,
                before.last().push(c),
            ));
        }
        k = k + 1;
    }
    lines.push(cur);
    assert(text@.take(text.len() as int) =~= text@);
    assert(lines_view(lines@) =~= split_lines(text@));
    lines
}

/// Appends `src[lo..hi]` to `dst`.
fn extend_range(dst: &mut Vec<char>, src: &Vec<char>, lo: usize, hi: usize)
    requires
        lo <= hi <= src.len(),
    ensures
        final(dst)@ == old(dst)@ + src@.subrange(lo as int, hi as int),
{
    let mut k = lo;
    while k < hi
        invariant
            lo <= k <= hi <= src.len(),
            dst@ == old(dst)@ + src@.subrange(lo as int, k as int),
        decreases hi - k,
    {
        dst.push(src[k]);
        assert(src@.subrange(lo as int, k + 1) =~= src@.subrange(lo as int, k as int).push(
            src@[k as int],
        ));
        k = k + 1;
    }
}

/// The logical lines of the physical lines `lines`.
fn unfold_lines(lines: &Vec<Vec<char>>) -> (r: Vec<Vec<char>>)
    ensures
        lines_view(r@) == unfold(lines_view(lines@)),
{
    let mut out: Vec<Vec<char>> = Vec::new();
    let mut i: usize = 0;
    while i < lines.len()
        invariant
            i <= lines.len(),
            lines_view(out@) == unfold(lines_view(lines@).take(i as int)),
        decreases lines.len() - i,
    {
        let l = &lines[i];
        let ghost prev = lines_view(out@);
        proof {
            assert(lines_view(lines@).take(i + 1).drop_last() =~= lines_view(lines@).take(
                i as int,
            ));
        }
        let n = l.len();
        let end = if n > 0 && l[n - 1] == '\r' {
            n - 1
        } else {
            n
        };
        assert(l@.subrange(0, end as int) =~= strip_cr(l@));
        if n > 0 && is_whitespace(l[0]) {
            if out.len() > 0 {
                let mut last = out.pop().unwrap();
                extend_range(&mut last, l, 0, end);
                out.push(last);
                assert(lines_view(out@) =~= prev.update(
                    prev.len() - 1,
                    prev.last() + strip_cr(l@),
                ));
            }
        } else {
            let mut content: Vec<char> = Vec::new();
            extend_range(&mut content, l, 0, end);
            out.push(content);
            assert(lines_view(out@) =~= prev.push(strip_cr(l@)));
        }
        i = i + 1;
    }
    assert(lines_view(lines@).take(lines.len() as int) =~= lines_view(lines@));
    out
}

/// The header that the logical line `l` states, if any.
fn split_header(l: &Vec<char>) -> (r: Option<(String, String)>)
    ensures
        match header_of(l@) {
            Some(h) => r matches Some(p) && p.0@ == h.0 && p.1@ == h.1,
            None => r is None,
        },
{
    let mut i: usize = 0;
    while i < l.len()
        invariant
            i <= l.len(),
            forall|j: int| 0 <= j < i ==> l@[j] != ':',
        decreases l.len() - i,
    {
        if l[i] == ':' {
            assert(is_first_colon(l@, i as int));
            let ghost c = choose|c: int| is_first_colon(l@, c);
            assert(c == i) by {
                if c < i {
                } else if c > i {
                }
            }
            let name = trimmed_range(l, 0, i);
            let value = trimmed_range(l, i + 1, l.len());
            return Some((name, value));
        }
        i = i + 1;
    }
    None
}

/// Errors of header decoding.
pub enum ParseHeaderErrors {
    /// The header data was not valid UTF-8.
    NotUtf8,
}

/// The headers of the header block `text`: lines are separated by newlines,
/// a line that begins with whitespace continues the line before it, and each
/// logical line is split at its first colon into a trimmed name and value.
/// A logical line without a colon is skipped.
pub fn parse_header_text(text: &str) -> (r: HeaderMap)
    ensures
        r.wf(),
        r@ == headers_of(text@),
{
    let chars = chars_of(text);
    let physical = split_text_lines(&chars);
    let logical = unfold_lines(&physical);
    let mut map = HeaderMap::new();
    let mut i: usize = 0;
    while i < logical.len()
        invariant
            i <= logical.len(),
            map.wf(),
            map@ == insert_all(lines_view(logical@).take(i as int)),
        decreases logical.len() - i,
    {
        proof {
            assert(lines_view(logical@).take(i + 1).drop_last() =~= lines_view(logical@).take(
                i as int,
            ));
        }
        match split_header(&logical[i]) {
            Some(p) => {
                map.insert(p.0, p.1);
            },
            None => {},
        }
        i = i + 1;
    }
    assert(lines_view(logical@).take(logical.len() as int) =~= lines_view(logical@));
    map
}

/// Decodes a raw header block; fails only where the bytes are not UTF-8.
pub fn parse_headers(data: &[u8]) -> (r: Result<HeaderMap, ParseHeaderErrors>)
    ensures
        match text_of(data@) {
            Some(t) => r matches Ok(m) && m.wf() && m@ == headers_of(t),
            None => r matches Err(ParseHeaderErrors::NotUtf8),
        },
{
    match utf8_str(data) {
        Some(text) => Ok(parse_header_text(text)),
        None => Err(ParseHeaderErrors::NotUtf8),
    }
}


proof fn lemma_header_strip_cr(l: Seq<char>)
    ensures
        header_of(strip_cr(l)) == header_of(l),
{
    if l.len() > 0 && l.last() == '\r' {
        let m = l.drop_last();
        assert forall|i: int| is_first_colon(m, i) <==> is_first_colon(l, i) by {
            assert forall|j: int| 0 <= j < m.len() implies m[j] == l[j] by {}
            if is_first_colon(l, i) {
                assert(l[l.len() - 1] == '\r');
                assert(i < m.len());
            }
        }
        if exists|i: int| is_first_colon(l, i) {
            let i = choose|i: int| is_first_colon(l, i);
            assert(l.subrange(0, i) =~= m.subrange(0, i));
            assert(l.subrange(i + 1, l.len() as int) =~= m.subrange(i + 1, m.len() as int).push(
                '\r',
            ));
            lemma_trim_push_ws(m.subrange(i + 1, m.len() as int), '\r');
        }
    }
}

proof fn lemma_unfold_simple(ls: Seq<Seq<char>>)
    requires
        forall|i: int| 0 <= i < ls.len() ==> !is_continuation(#[trigger] ls[i]),
    ensures
        unfold(ls) == ls.map_values(|l: Seq<char>| strip_cr(l)),
    decreases ls.len(),
{
    if ls.len() > 0 {
        lemma_unfold_simple(ls.drop_last());
        assert(!is_continuation(ls[ls.len() - 1]));
        assert(unfold(ls) =~= ls.map_values(|l: Seq<char>| strip_cr(l)));
    }
}

proof fn lemma_insert_all_strip_cr(ls: Seq<Seq<char>>)
    ensures
        insert_all(ls.map_values(|l: Seq<char>| strip_cr(l))) == insert_all(ls),
    decreases ls.len(),
{
    if ls.len() > 0 {
        let ms = ls.map_values(|l: Seq<char>| strip_cr(l));
        assert(ms.drop_last() =~= ls.drop_last().map_values(|l: Seq<char>| strip_cr(l)));
        lemma_insert_all_strip_cr(ls.drop_last());
        lemma_header_strip_cr(ls.last());
    }
}

/// For a header block none of whose lines begins with whitespace, decoding is
/// the same as splitting the text at each newline and then each line at its
/// first colon.
pub proof fn lemma_simple_lines(t: Seq<char>)
    requires
        forall|i: int|
            0 <= i < split_lines(t).len() ==> !is_continuation(#[trigger] split_lines(t)[i]),
    ensures
        headers_of(t) == insert_all(split_lines(t)),
{
    lemma_unfold_simple(split_lines(t));
    lemma_insert_all_strip_cr(split_lines(t));
}

proof fn lemma_split_lines_append(s: Seq<char>, c: Seq<char>)
    requires
        !c.contains('\n'),
    ensures
        split_lines(s + c) == split_lines(s).update(
            split_lines(s).len() - 1,
            split_lines(s).last() + c,
        ),
    decreases c.len(),
{
    lemma_split_lines_nonempty(s);
    if c.len() == 0 {
        assert(s + c =~= s);
        assert(split_lines(s).last() + c =~= split_lines(s).last());
        assert(split_lines(s).update(split_lines(s).len() - 1, split_lines(s).last())
            =~= split_lines(s));
    } else {
        let d = c.drop_last();
        assert(!d.contains('\n')) by {
            if d.contains('\n') {
                let k = choose|k: int| 0 <= k < d.len() && d[k] == '\n';
                assert(c[k] == '\n');
            }
        }
        lemma_split_lines_append(s, d);
        assert((s + c).drop_last() =~= s + d);
        assert(c[c.len() - 1] != '\n');
        assert((split_lines(s).last() + d).push(c.last()) =~= split_lines(s).last() + c);
        assert((s + c).last() == c.last());
        assert(split_lines(s + c) =~= split_lines(s).update(
            split_lines(s).len() - 1,
            split_lines(s).last() + c,
        ));
    }
}

/// A line that begins with whitespace continues the header before it: the
/// header keeps its name, the line's text is appended to its value before
/// trimming, and no new name appears.
pub proof fn lemma_continuation_appends(t: Seq<char>, c: Seq<char>, i: int)
    requires
        is_continuation(c),
        !c.contains('\n'),
        unfold(split_lines(t)).len() > 0,
        is_first_colon(unfold(split_lines(t)).last(), i),
    ensures
        ({
            let ls = unfold(split_lines(t));
            let l = ls.last();
            &&& headers_of(t + seq!['\n'] + c) == insert_all(ls.drop_last()).insert(
                trim(l.subrange(0, i)),
                trim(l.subrange(i + 1, l.len() as int) + strip_cr(c)),
            )
            &&& headers_of(t + seq!['\n'] + c).dom() == headers_of(t).dom()
        }),
{
    let ls0 = split_lines(t);
    let s = t.push('\n');
    assert(s.drop_last() =~= t);
    assert(split_lines(s) == ls0.push(Seq::<char>::empty()));
    lemma_split_lines_append(s, c);
    assert(t + seq!['\n'] + c =~= s + c);
    assert(Seq::<char>::empty() + c =~= c);
    assert(split_lines(s + c) =~= ls0.push(c));
    assert(ls0.push(c).drop_last() =~= ls0);
    let ls = unfold(ls0);
    let l = ls.last();
    let l2 = l + strip_cr(c);
    assert(unfold(ls0.push(c)) == ls.update(ls.len() - 1, l2));
    let ls2 = ls.update(ls.len() - 1, l2);
    assert(ls2.drop_last() =~= ls.drop_last());
    assert(is_first_colon(l2, i));
    let j = choose|j: int| is_first_colon(l2, j);
    assert(j == i) by {
        if j < i {
            assert(l[j] == ':');
        } else if j > i {
            assert(l2[i] == ':');
        }
    }
    assert(l2.subrange(0, i) =~= l.subrange(0, i));
    assert(l2.subrange(i + 1, l2.len() as int) =~= l.subrange(i + 1, l.len() as int) + strip_cr(
        c,
    ));
    let k = choose|k: int| is_first_colon(l, k);
    assert(k == i) by {
        if k < i {
        } else if k > i {
            assert(l[i] == ':');
        }
    }
}

} // verus!
