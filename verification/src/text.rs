//! Text as sequences of characters: the few string operations the generator
//! needs, each with an exact contract over `Seq<char>`.

use vstd::prelude::*;

verus! {

/// `String::push`: the string grows by exactly the given character.
#[verifier::external_body]
pub(crate) fn push_char(s: &mut String, c: char)
    ensures
        final(s)@ == old(s)@.push(c),
{
    s.push(c)
}

/// The characters of a string, in order.
pub fn chars_of(s: &str) -> (v: Vec<char>)
    ensures
        v@ == s@,
{
    let mut v: Vec<char> = Vec::new();
    for c in it: s.chars()
        invariant
            v@ == it.seq().take(it.index()),
            it.seq() == s@,
    {
        v.push(c);
    }
    v
}

/// The string made of the given characters.
pub fn string_of(v: &Vec<char>) -> (s: String)
    ensures
        s@ == v@,
{
    let mut s = String::new();
    let mut i: usize = 0;
    while i < v.len()
        invariant
            i <= v.len(),
            s@ == v@.take(i as int),
        decreases v.len() - i,
    {
        push_char(&mut s, v[i]);
        i += 1;
    }
    s
}

/// Whether `s` begins with `p`.
pub open spec fn has_prefix(s: Seq<char>, p: Seq<char>) -> bool {
    p.len() <= s.len() && s.take(p.len() as int) == p
}

/// Whether `s` ends with `p`.
pub open spec fn has_suffix(s: Seq<char>, p: Seq<char>) -> bool {
    p.len() <= s.len() && s.skip(s.len() - p.len()) == p
}

/// Whether `needle` occurs somewhere in `hay` as a contiguous run.
pub open spec fn occurs_in(hay: Seq<char>, needle: Seq<char>) -> bool {
    exists|i: int| 0 <= i <= hay.len() && #[trigger] has_prefix(hay.skip(i), needle)
}

/// `s` with every occurrence of `from` replaced by `to`, scanning from the
/// left and never looking again at text already replaced. An empty `from`
/// changes nothing.
pub open spec fn replaced(s: Seq<char>, from: Seq<char>, to: Seq<char>) -> Seq<char>
    decreases s.len(),
{
    if from.len() == 0 || s.len() == 0 {
        s
    } else if has_prefix(s, from) {
        to + replaced(s.skip(from.len() as int), from, to)
    } else {
        seq![s[0]] + replaced(s.skip(1), from, to)
    }
}

/// Whether the two vectors hold the same characters.
pub fn same_chars(a: &Vec<char>, b: &Vec<char>) -> (r: bool)
    ensures
        r == (a@ == b@),
{
    if a.len() != b.len() {
        return false;
    }
    let mut i: usize = 0;
    while i < a.len()
        invariant
            i <= a.len(),
            a.len() == b.len(),
            a@.take(i as int) == b@.take(i as int),
        decreases a.len() - i,
    {
        if a[i] != b[i] {
            return false;
        }
        assert(a@.take(i + 1) == a@.take(i as int).push(a@[i as int]));
        assert(b@.take(i + 1) == b@.take(i as int).push(b@[i as int]));
        i += 1;
    }
    assert(a@ == a@.take(a.len() as int));
    assert(b@ == b@.take(b.len() as int));
    true
}

/// Whether the two strings hold the same characters.
pub fn same_text(a: &str, b: &str) -> (r: bool)
    ensures
        r == (a@ == b@),
{
    let x = chars_of(a);
    let y = chars_of(b);
    same_chars(&x, &y)
}

/// Whether `p` stands in `s` at position `at`.
pub fn prefix_at(s: &Vec<char>, at: usize, p: &Vec<char>) -> (r: bool)
    ensures
        r == (at <= s.len() && has_prefix(s@.skip(at as int), p@)),
{
    if at > s.len() || p.len() > s.len() - at {
        return false;
    }
    let ghost rest = s@.skip(at as int);
    let mut i: usize = 0;
    while i < p.len()
        invariant
            i <= p.len(),
            at + p.len() <= s.len(),
            rest == s@.skip(at as int),
            rest.take(i as int) == p@.take(i as int),
        decreases p.len() - i,
    {
        if s[at + i] != p[i] {
            assert(rest.take(p.len() as int)[i as int] != p@[i as int]);
            return false;
        }
        assert(rest.take(i + 1) == rest.take(i as int).push(rest[i as int]));
        assert(p@.take(i + 1) == p@.take(i as int).push(p@[i as int]));
        i += 1;
    }
    assert(p@ == p@.take(p.len() as int));
    true
}

/// `s` with every occurrence of `from` replaced by `to`.
pub fn replace_all(s: &str, from: &str, to: &str) -> (r: String)
    ensures
        r@ == replaced(s@, from@, to@),
{
    let src = chars_of(s);
    let pat = chars_of(from);
    let rep = chars_of(to);
    if pat.len() == 0 {
        return string_of(&src);
    }
    let mut out: Vec<char> = Vec::new();
    let mut i: usize = 0;
    assert(src@.skip(0) == src@);
    assert(out@ + replaced(src@, pat@, rep@) == replaced(src@, pat@, rep@));
    while i < src.len()
        invariant
            i <= src.len(),
            pat.len() > 0,
            out@ + replaced(src@.skip(i as int), pat@, rep@) == replaced(src@, pat@, rep@),
        decreases src.len() - i,
    {
        let ghost rest = src@.skip(i as int);
        let ghost before = out@;
        if prefix_at(&src, i, &pat) {
            let mut k: usize = 0;
            while k < rep.len()
                invariant
                    k <= rep.len(),
                    out@ == before + rep@.take(k as int),
                decreases rep.len() - k,
            {
                out.push(rep[k]);
                assert(rep@.take(k + 1) == rep@.take(k as int).push(rep@[k as int]));
                k += 1;
            }
            assert(rep@.take(rep.len() as int) == rep@);
            assert(rest.skip(pat.len() as int) == src@.skip(i + pat.len()));
            assert(before + (rep@ + replaced(rest.skip(pat.len() as int), pat@, rep@)) == (before
                + rep@) + replaced(rest.skip(pat.len() as int), pat@, rep@));
            i += pat.len();
        } else {
            out.push(src[i]);
            assert(rest.skip(1) == src@.skip(i + 1));
            assert(before + (seq![rest[0]] + replaced(rest.skip(1), pat@, rep@)) == before.push(
                rest[0],
            ) + replaced(rest.skip(1), pat@, rep@));
            i += 1;
        }
    }
    assert(out@ + Seq::<char>::empty() == out@);
    string_of(&out)
}

/// Whether `needle` occurs somewhere in `hay`.
pub fn contains(hay: &str, needle: &str) -> (r: bool)
    ensures
        r == occurs_in(hay@, needle@),
{
    let h = chars_of(hay);
    let n = chars_of(needle);
    let mut i: usize = 0;
    while i < h.len()
        invariant
            i <= h.len(),
            h@ == hay@,
            n@ == needle@,
            forall|j: int| 0 <= j < i ==> !#[trigger] has_prefix(h@.skip(j), n@),
        decreases h.len() - i,
    {
        if prefix_at(&h, i, &n) {
            assert(has_prefix(hay@.skip(i as int), needle@));
            return true;
        }
        i += 1;
    }
    let last = prefix_at(&h, i, &n);
    assert(last ==> has_prefix(hay@.skip(i as int), needle@));
    last
}

/// The texts of a run of strings, in order.
pub open spec fn strings_view(strings: Seq<String>) -> Seq<Seq<char>> {
    strings.map_values(|s: String| s@)
}

/// The pieces in order with `sep` between each two.
pub open spec fn joined(pieces: Seq<Seq<char>>, sep: Seq<char>) -> Seq<char>
    decreases pieces.len(),
{
    if pieces.len() == 0 {
        Seq::empty()
    } else if pieces.len() == 1 {
        pieces[0]
    } else {
        joined(pieces.drop_last(), sep) + sep + pieces.last()
    }
}

/// The pieces in order with `sep` between each two.
pub fn join(pieces: &Vec<String>, sep: &str) -> (r: String)
    ensures
        r@ == joined(strings_view(pieces@), sep@),
{
    let mut out = String::new();
    let mut i: usize = 0;
    while i < pieces.len()
        invariant
            i <= pieces.len(),
            out@ == joined(strings_view(pieces@).take(i as int), sep@),
        decreases pieces.len() - i,
    {
        if i > 0 {
            out.append(sep);
        }
        out.append(pieces[i].as_str());
        assert(strings_view(pieces@).take(i + 1).drop_last() == strings_view(pieces@).take(
            i as int,
        ));
        i += 1;
    }
    assert(strings_view(pieces@).take(pieces.len() as int) == strings_view(pieces@));
    out
}

/// Adds a copy of `piece` at the end of `pieces`.
pub fn push_text(pieces: &mut Vec<String>, piece: String)
    ensures
        strings_view(final(pieces)@) == strings_view(old(pieces)@).push(piece@),
{
    pieces.push(piece);
    assert(strings_view(pieces@) =~= strings_view(old(pieces)@).push(piece@));
}

/// Where the first line of `s` ends, looking from `from` on: the place
/// of the first line feed, or the end of the text.
pub open spec fn line_end(s: Seq<char>, from: int) -> int
    decreases s.len() - from,
{
    if from < 0 || from >= s.len() {
        s.len() as int
    } else if s[from] == '\n' {
        from
    } else {
        line_end(s, from + 1)
    }
}

/// The first line of `s`, without its line ending (a line feed, or a
/// carriage return and a line feed). A text without a line feed is its own
/// first line.
pub open spec fn first_line(s: Seq<char>) -> Seq<char> {
    let end = line_end(s, 0);
    if 0 < end < s.len() && s[end - 1] == '\r' {
        s.take(end - 1)
    } else {
        s.take(end)
    }
}

/// The first line of `s`, without its line ending.
pub fn first_line_of(s: &str) -> (r: String)
    ensures
        r@ == first_line(s@),
{
    let v = chars_of(s);
    let mut end: usize = 0;
    while end < v.len() && v[end] != '\n'
        invariant
            end <= v.len(),
            line_end(v@, 0) == line_end(v@, end as int),
        decreases v.len() - end,
    {
        end += 1;
    }
    let stop = if 0 < end && end < v.len() && v[end - 1] == '\r' {
        end - 1
    } else {
        end
    };
    let mut out: Vec<char> = Vec::new();
    let mut i: usize = 0;
    while i < stop
        invariant
            i <= stop <= v.len(),
            out@ == v@.take(i as int),
        decreases stop - i,
    {
        out.push(v[i]);
        i += 1;
    }
    string_of(&out)
}

/// Whether `a` comes before `b` in dictionary order, characters compared
/// by their code points.
pub open spec fn text_less(a: Seq<char>, b: Seq<char>) -> bool
    decreases a.len(),
{
    if b.len() == 0 {
        false
    } else if a.len() == 0 {
        true
    } else if a[0] != b[0] {
        (a[0] as int) < (b[0] as int)
    } else {
        text_less(a.skip(1), b.skip(1))
    }
}

/// Whether `a` comes before `b` in dictionary order.
pub fn less_than(a: &str, b: &str) -> (r: bool)
    ensures
        r == text_less(a@, b@),
{
    let x = chars_of(a);
    let y = chars_of(b);
    let mut i: usize = 0;
    assert(x@.skip(0) == x@ && y@.skip(0) == y@);
    while i < x.len() && i < y.len()
        invariant
            i <= x.len(),
            i <= y.len(),
            x@ == a@,
            y@ == b@,
            text_less(x@, y@) == text_less(x@.skip(i as int), y@.skip(i as int)),
        decreases x.len() - i,
    {
        assert(x@.skip(i as int)[0] == x@[i as int]);
        assert(y@.skip(i as int)[0] == y@[i as int]);
        if x[i] != y[i] {
            return x[i] < y[i];
        }
        assert(x@.skip(i as int).skip(1) == x@.skip(i + 1));
        assert(y@.skip(i as int).skip(1) == y@.skip(i + 1));
        i += 1;
    }
    i < y.len()
}

/// No text comes before itself.
pub proof fn lemma_text_less_irreflexive(a: Seq<char>)
    ensures
        !text_less(a, a),
    decreases a.len(),
{
    if a.len() > 0 {
        lemma_text_less_irreflexive(a.skip(1));
    }
}

/// Of two different texts, one comes before the other.
pub proof fn lemma_text_less_total(a: Seq<char>, b: Seq<char>)
    ensures
        a == b || text_less(a, b) || text_less(b, a),
    decreases a.len(),
{
    if a.len() > 0 && b.len() > 0 {
        if a[0] == b[0] {
            lemma_text_less_total(a.skip(1), b.skip(1));
            if a.skip(1) == b.skip(1) {
                assert(a =~= seq![a[0]] + a.skip(1));
                assert(b =~= seq![b[0]] + b.skip(1));
            }
        }
    } else if a.len() == 0 && b.len() == 0 {
        assert(a =~= b);
    }
}

/// What comes before a text that comes before a third comes before the third.
pub proof fn lemma_text_less_transitive(a: Seq<char>, b: Seq<char>, c: Seq<char>)
    requires
        text_less(a, b),
        text_less(b, c),
    ensures
        text_less(a, c),
    decreases a.len(),
{
    if a.len() > 0 && a[0] == b[0] && b[0] == c[0] {
        lemma_text_less_transitive(a.skip(1), b.skip(1), c.skip(1));
    }
}

/// Each text comes before the next one.
pub open spec fn ascending(lines: Seq<Seq<char>>) -> bool {
    forall|i: int, j: int| 0 <= i < j < lines.len() ==> text_less(lines[i], lines[j])
}

/// Where `line` belongs among `lines`, looking from `from` on: the first
/// place whose text does not come before `line`.
pub open spec fn place_of(lines: Seq<Seq<char>>, line: Seq<char>, from: int) -> int
    decreases lines.len() - from,
{
    if from < 0 || from >= lines.len() {
        lines.len() as int
    } else if !text_less(lines[from], line) {
        from
    } else {
        place_of(lines, line, from + 1)
    }
}

/// `lines` with `line` put where it belongs, unless it is there already.
pub open spec fn inserted(lines: Seq<Seq<char>>, line: Seq<char>) -> Seq<Seq<char>> {
    let at = place_of(lines, line, 0);
    if at < lines.len() && lines[at] == line {
        lines
    } else {
        lines.insert(at, line)
    }
}

/// The first `count` of `lines` in dictionary order, each text once.
pub open spec fn sorted_unique(lines: Seq<Seq<char>>, count: int) -> Seq<Seq<char>>
    decreases count,
{
    if count <= 0 || count > lines.len() {
        Seq::empty()
    } else {
        inserted(sorted_unique(lines, count - 1), lines[count - 1])
    }
}

/// The lines in dictionary order, each text once.
pub fn sort_unique(lines: &Vec<String>) -> (r: Vec<String>)
    ensures
        strings_view(r@) == sorted_unique(strings_view(lines@), lines@.len() as int),
        ascending(strings_view(r@)),
        strings_view(r@).no_duplicates(),
        forall|x: Seq<char>| strings_view(r@).contains(x) <==> strings_view(lines@).contains(x),
{
    proof {
        lemma_sorted_unique(strings_view(lines@), lines@.len() as int);
        assert(strings_view(lines@).take(lines@.len() as int) == strings_view(lines@));
    }
    let mut out: Vec<String> = Vec::new();
    assert(strings_view(out@) =~= Seq::empty());
    let mut i: usize = 0;
    while i < lines.len()
        invariant
            i <= lines.len(),
            strings_view(out@) == sorted_unique(strings_view(lines@), i as int),
        decreases lines.len() - i,
    {
        let line = &lines[i];
        let ghost sorted = strings_view(out@);
        let mut at: usize = 0;
        while at < out.len() && less_than(out[at].as_str(), line.as_str())
            invariant
                at <= out.len(),
                sorted == strings_view(out@),
                place_of(sorted, line@, 0) == place_of(sorted, line@, at as int),
            decreases out.len() - at,
        {
            at += 1;
        }
        if !(at < out.len() && same_text(out[at].as_str(), line.as_str())) {
            out.insert(at, line.clone());
            assert(strings_view(out@) =~= sorted.insert(at as int, line@));
        }
        i += 1;
    }
    out
}

/// Putting a text where it belongs keeps the order and adds just that text.
pub proof fn lemma_inserted(lines: Seq<Seq<char>>, line: Seq<char>)
    requires
        ascending(lines),
    ensures
        ascending(inserted(lines, line)),
        forall|x: Seq<char>| inserted(lines, line).contains(x) <==> (lines.contains(x) || x == line),
{
    let at = place_of(lines, line, 0);
    lemma_place_of(lines, line, 0);
    let after = inserted(lines, line);
    if at < lines.len() && lines[at] == line {
        assert(lines.contains(line));
    } else {
        assert forall|i: int, j: int| 0 <= i < j < after.len() implies text_less(
            after[i],
            after[j],
        ) by {
            if j == at {
                assert(after[i] == lines[i]);
            } else if i == at {
                assert(after[j] == lines[j - 1]);
                if at < lines.len() {
                    lemma_text_less_total(lines[at], line);
                    if j - 1 > at {
                        lemma_text_less_transitive(line, lines[at], lines[j - 1]);
                    }
                }
            } else {
                let a = if i < at { i } else { i - 1 };
                let b = if j < at { j } else { j - 1 };
                assert(after[i] == lines[a]);
                assert(after[j] == lines[b]);
            }
        }
        assert forall|x: Seq<char>| after.contains(x) <==> (lines.contains(x) || x == line) by {
            if after.contains(x) {
                let k = choose|k: int| 0 <= k < after.len() && after[k] == x;
                if k < at {
                    assert(lines[k] == x);
                } else if k > at {
                    assert(lines[k - 1] == x);
                }
            }
            if lines.contains(x) {
                let k = choose|k: int| 0 <= k < lines.len() && lines[k] == x;
                if k < at {
                    assert(after[k] == x);
                } else {
                    assert(after[k + 1] == x);
                }
            }
            if x == line {
                assert(after[at] == x);
            }
        }
    }
}

/// `place_of` gives the first place, from `from` on, whose text does not
/// come before `line`.
pub proof fn lemma_place_of(lines: Seq<Seq<char>>, line: Seq<char>, from: int)
    requires
        0 <= from <= lines.len(),
    ensures
        from <= place_of(lines, line, from) <= lines.len(),
        forall|k: int| from <= k < place_of(lines, line, from) ==> text_less(lines[k], line),
        place_of(lines, line, from) < lines.len() ==> !text_less(
            lines[place_of(lines, line, from)],
            line,
        ),
    decreases lines.len() - from,
{
    if from < lines.len() && text_less(lines[from], line) {
        lemma_place_of(lines, line, from + 1);
    }
}

/// Sorting gives the texts in ascending order, each text of the input
/// once and no other.
pub proof fn lemma_sorted_unique(lines: Seq<Seq<char>>, count: int)
    requires
        0 <= count <= lines.len(),
    ensures
        ascending(sorted_unique(lines, count)),
        sorted_unique(lines, count).no_duplicates(),
        forall|x: Seq<char>|
            sorted_unique(lines, count).contains(x) <==> lines.take(count).contains(x),
    decreases count,
{
    let sorted = sorted_unique(lines, count);
    assert forall|i: int, j: int| 0 <= i < sorted.len() && 0 <= j < sorted.len() && i
        != j implies sorted[i] != sorted[j] by {
        lemma_sorted_unique_ascending(lines, count);
        lemma_text_less_irreflexive(sorted[i]);
        if i < j {
            assert(text_less(sorted[i], sorted[j]));
        } else {
            assert(text_less(sorted[j], sorted[i]));
        }
    }
    lemma_sorted_unique_ascending(lines, count);
}

/// Sorting gives the texts in ascending order, those of the input and no other.
pub proof fn lemma_sorted_unique_ascending(lines: Seq<Seq<char>>, count: int)
    requires
        0 <= count <= lines.len(),
    ensures
        ascending(sorted_unique(lines, count)),
        forall|x: Seq<char>|
            sorted_unique(lines, count).contains(x) <==> lines.take(count).contains(x),
    decreases count,
{
    if count > 0 {
        lemma_sorted_unique_ascending(lines, count - 1);
        let before = sorted_unique(lines, count - 1);
        lemma_inserted(before, lines[count - 1]);
        let last = lines[count - 1];
        let after = sorted_unique(lines, count);
        assert(after == inserted(before, last));
        let upto = lines.take(count);
        let short = lines.take(count - 1);
        assert forall|x: Seq<char>| after.contains(x) <==> upto.contains(x) by {
            assert(after.contains(x) <==> (before.contains(x) || x == last));
            assert(before.contains(x) <==> short.contains(x));
            if upto.contains(x) {
                let k = choose|k: int| 0 <= k < upto.len() && upto[k] == x;
                if k < count - 1 {
                    assert(short[k] == x);
                } else {
                    assert(x == last);
                }
            }
            if short.contains(x) {
                let k = choose|k: int| 0 <= k < short.len() && short[k] == x;
                assert(upto[k] == x);
            }
            if x == last {
                assert(upto[count - 1] == x);
            }
        }
    }
}

/// What occurs in a text occurs in the text with more at its end.
pub proof fn lemma_occurs_in_extended(a: Seq<char>, b: Seq<char>, needle: Seq<char>)
    requires
        occurs_in(a, needle),
    ensures
        occurs_in(a + b, needle),
{
    let i = choose|i: int| 0 <= i <= a.len() && #[trigger] has_prefix(a.skip(i), needle);
    assert((a + b).skip(i).take(needle.len() as int) =~= a.skip(i).take(needle.len() as int));
    assert(has_prefix((a + b).skip(i), needle));
}

/// What occurs in a text occurs in the text with more at its front.
pub proof fn lemma_occurs_in_appended(a: Seq<char>, b: Seq<char>, needle: Seq<char>)
    requires
        occurs_in(b, needle),
    ensures
        occurs_in(a + b, needle),
{
    let i = choose|i: int| 0 <= i <= b.len() && #[trigger] has_prefix(b.skip(i), needle);
    assert((a + b).skip(a.len() + i) =~= b.skip(i));
    assert(has_prefix((a + b).skip(a.len() + i), needle));
}

/// What a text begins with occurs in it.
pub proof fn lemma_prefix_occurs(a: Seq<char>, needle: Seq<char>)
    requires
        has_prefix(a, needle),
    ensures
        occurs_in(a, needle),
{
    assert(a.skip(0) == a);
    assert(has_prefix(a.skip(0), needle));
}

/// Replacing in a text does what replacing in its two parts does, where
/// the second part starts with a character that `from` does not hold: no
/// occurrence of `from` can then reach from the first part into the second.
pub proof fn lemma_replaced_splits(a: Seq<char>, b: Seq<char>, from: Seq<char>, to: Seq<char>)
    requires
        b.len() > 0,
        !from.contains(b[0]),
    ensures
        replaced(a + b, from, to) == replaced(a, from, to) + replaced(b, from, to),
    decreases a.len(),
{
    let whole = a + b;
    if from.len() == 0 {
    } else if a.len() == 0 {
        assert(whole =~= b);
        assert(replaced(a, from, to) + replaced(b, from, to) =~= replaced(b, from, to));
    } else if has_prefix(whole, from) {
        let n = from.len() as int;
        if n > a.len() {
            assert(whole.take(n)[a.len() as int] == b[0]);
            assert(from[a.len() as int] == b[0]);
            assert(from.contains(b[0]));
        }
        assert(whole.take(n) =~= a.take(n));
        assert(whole.skip(n) =~= a.skip(n) + b);
        lemma_replaced_splits(a.skip(n), b, from, to);
        assert(to + (replaced(a.skip(n), from, to) + replaced(b, from, to)) =~= (to + replaced(
            a.skip(n),
            from,
            to,
        )) + replaced(b, from, to));
    } else {
        let n = from.len() as int;
        if n <= a.len() {
            assert(whole.take(n) =~= a.take(n));
        }
        assert(!has_prefix(a, from));
        assert(whole.skip(1) =~= a.skip(1) + b);
        assert(whole[0] == a[0]);
        lemma_replaced_splits(a.skip(1), b, from, to);
        assert(seq![a[0]] + (replaced(a.skip(1), from, to) + replaced(b, from, to)) =~= (seq![
            a[0],
        ] + replaced(a.skip(1), from, to)) + replaced(b, from, to));
    }
}

/// Replacing leaves the first character of a text in place where `from`
/// does not hold that character.
pub proof fn lemma_replaced_keeps_first(b: Seq<char>, from: Seq<char>, to: Seq<char>)
    requires
        b.len() > 0,
        !from.contains(b[0]),
    ensures
        replaced(b, from, to).len() > 0,
        replaced(b, from, to)[0] == b[0],
{
    if from.len() > 0 {
        if has_prefix(b, from) {
            assert(b.take(from.len() as int)[0] == b[0]);
            assert(from[0] == b[0]);
            assert(from.contains(b[0]));
        }
    }
}

/// `line_end` gives a place from `from` on, no later than the end of the
/// text, and where it is before the end a line feed stands there.
pub proof fn lemma_line_end(s: Seq<char>, from: int)
    requires
        0 <= from <= s.len(),
    ensures
        from <= line_end(s, from) <= s.len(),
        line_end(s, from) < s.len() ==> s[line_end(s, from)] == '\n',
    decreases s.len() - from,
{
    if from < s.len() && s[from] != '\n' {
        lemma_line_end(s, from + 1);
    }
}

/// A text is its first line followed by nothing, or by a rest that
/// starts with a carriage return or a line feed.
pub proof fn lemma_first_line_splits(s: Seq<char>)
    ensures
        has_prefix(s, first_line(s)),
        first_line(s).len() < s.len() ==> s[first_line(s).len() as int] == '\n' || s[first_line(
            s,
        ).len() as int] == '\r',
{
    lemma_line_end(s, 0);
    let line = first_line(s);
    assert(s.take(line.len() as int) =~= line);
}

} // verus!
