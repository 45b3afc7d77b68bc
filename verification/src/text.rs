//! Character-level views of text: splitting at a separator, the first line of a
//! text, and where one text first occurs in another.
use vstd::prelude::*;

verus! {

broadcast use vstd::string::group_string_axioms;

/// The pieces of `s` between occurrences of `sep`, as `str::split` with a
/// one-character pattern yields them (an empty text is one empty piece).
pub open spec fn split_on(s: Seq<char>, sep: char) -> Seq<Seq<char>>
    decreases s.len(),
{
    if s.len() == 0 {
        seq![Seq::<char>::empty()]
    } else {
        let rest = split_on(s.drop_first(), sep);
        if s[0] == sep {
            seq![Seq::<char>::empty()] + rest
        } else {
            rest.update(0, seq![s[0]] + rest[0])
        }
    }
}

/// `s` holds no `c`.
pub open spec fn free_of(s: Seq<char>, c: char) -> bool {
    forall|i: int| 0 <= i < s.len() ==> s[i] != c
}

/// Piece `k` of `parts` (the pieces of a text split at line feeds) read as a
/// line: a carriage return that ends it is dropped where a line feed follows it,
/// that is, where it is not the last piece.
pub open spec fn line_piece(parts: Seq<Seq<char>>, k: int) -> Seq<char> {
    if k < parts.len() - 1 && parts[k].len() > 0 && parts[k].last() == '\r' {
        parts[k].drop_last()
    } else {
        parts[k]
    }
}

/// The lines of `s`, as `str::lines` yields them: the pieces between line
/// feeds, without a carriage return that ends one where a line feed follows;
/// an empty last piece (after a final line feed, or of an empty text) is no line.
pub open spec fn text_lines(s: Seq<char>) -> Seq<Seq<char>> {
    let parts = split_on(s, '\n');
    let count = if parts.last().len() == 0 {
        parts.len() - 1
    } else {
        parts.len() as int
    };
    Seq::new(count as nat, |k: int| line_piece(parts, k))
}

/// `pat` stands in `text` from position `i` on.
pub open spec fn occurs_at(text: Seq<char>, pat: Seq<char>, i: int) -> bool {
    &&& 0 <= i
    &&& i + pat.len() <= text.len()
    &&& text.subrange(i, i + pat.len()) == pat
}

/// Splitting never yields fewer than one piece.
pub proof fn lemma_split_nonempty(s: Seq<char>, sep: char)
    ensures
        split_on(s, sep).len() >= 1,
    decreases s.len(),
{
    if s.len() > 0 {
        lemma_split_nonempty(s.drop_first(), sep);
    }
}

/// A text without the separator is a single piece.
pub proof fn lemma_split_free(s: Seq<char>, sep: char)
    requires
        free_of(s, sep),
    ensures
        split_on(s, sep) == seq![s],
    decreases s.len(),
{
    if s.len() > 0 {
        lemma_split_free(s.drop_first(), sep);
        assert(seq![s[0]] + s.drop_first() =~= s);
        assert(split_on(s, sep) =~= seq![s]);
    } else {
        assert(s =~= Seq::<char>::empty());
    }
}

/// The first piece ends at the first separator; the rest is split on its own.
pub proof fn lemma_split_first(t: Seq<char>, u: Seq<char>, sep: char)
    requires
        free_of(t, sep),
    ensures
        split_on(t + seq![sep] + u, sep) == seq![t] + split_on(u, sep),
    decreases t.len(),
{
    let s = t + seq![sep] + u;
    if t.len() == 0 {
        assert(s.drop_first() =~= u);
        assert(t =~= Seq::<char>::empty());
    } else {
        let t1 = t.drop_first();
        assert(s.drop_first() =~= t1 + seq![sep] + u);
        lemma_split_first(t1, u, sep);
        assert(seq![t[0]] + t1 =~= t);
        assert(split_on(s, sep) =~= seq![t] + split_on(u, sep));
    }
}

/// Splitting two texts joined by the separator gives the pieces of the one and
/// then those of the other.
pub proof fn lemma_split_concat(x: Seq<char>, y: Seq<char>, sep: char)
    ensures
        split_on(x + seq![sep] + y, sep) == split_on(x, sep) + split_on(y, sep),
    decreases x.len(),
{
    let s = x + seq![sep] + y;
    if x.len() == 0 {
        assert(s.drop_first() =~= y);
        assert(split_on(x, sep) =~= seq![Seq::<char>::empty()]);
        assert(split_on(s, sep) =~= split_on(x, sep) + split_on(y, sep));
    } else {
        let x1 = x.drop_first();
        assert(s.drop_first() =~= x1 + seq![sep] + y);
        lemma_split_concat(x1, y, sep);
        lemma_split_nonempty(x1, sep);
        assert(split_on(s, sep) =~= split_on(x, sep) + split_on(y, sep));
    }
}

/// `fields` written one after another, with `sep` between each two of them.
pub open spec fn join_with(fields: Seq<Seq<char>>, sep: char) -> Seq<char>
    decreases fields.len(),
{
    if fields.len() == 0 {
        Seq::empty()
    } else if fields.len() == 1 {
        fields[0]
    } else {
        fields[0] + seq![sep] + join_with(fields.drop_first(), sep)
    }
}

/// Splitting what was joined gives back the pieces, where none of them holds
/// the separator.
pub proof fn lemma_split_join(fields: Seq<Seq<char>>, sep: char)
    requires
        fields.len() >= 1,
        forall|i: int| 0 <= i < fields.len() ==> free_of(#[trigger] fields[i], sep),
    ensures
        split_on(join_with(fields, sep), sep) == fields,
    decreases fields.len(),
{
    if fields.len() == 1 {
        lemma_split_free(fields[0], sep);
        assert(seq![fields[0]] =~= fields);
    } else {
        let rest = fields.drop_first();
        assert forall|i: int| 0 <= i < rest.len() implies free_of(#[trigger] rest[i], sep) by {
            assert(rest[i] == fields[i + 1]);
        }
        lemma_split_join(rest, sep);
        lemma_split_first(fields[0], join_with(rest, sep), sep);
        assert(seq![fields[0]] + rest =~= fields);
    }
}

/// A joined text holds no `c` where neither the pieces nor the separator do.
pub proof fn lemma_join_free(fields: Seq<Seq<char>>, sep: char, c: char)
    requires
        sep != c,
        forall|i: int| 0 <= i < fields.len() ==> free_of(#[trigger] fields[i], c),
    ensures
        free_of(join_with(fields, sep), c),
    decreases fields.len(),
{
    if fields.len() > 1 {
        let rest = fields.drop_first();
        assert forall|i: int| 0 <= i < rest.len() implies free_of(#[trigger] rest[i], c) by {
            assert(rest[i] == fields[i + 1]);
        }
        lemma_join_free(rest, sep, c);
        let j = join_with(fields, sep);
        let a = fields[0];
        assert(free_of(a, c));
        assert forall|i: int| 0 <= i < j.len() implies j[i] != c by {
            if i < a.len() {
                assert(j[i] == a[i]);
            } else if i > a.len() {
                assert(j[i] == join_with(rest, sep)[i - a.len() - 1]);
            }
        }
    }
}

/// The last character of a joined text: that of its last piece, or the
/// separator where the last piece is empty.
pub proof fn lemma_join_last(fields: Seq<Seq<char>>, sep: char)
    requires
        fields.len() >= 2 || (fields.len() == 1 && fields[0].len() > 0),
    ensures
        join_with(fields, sep).len() > 0,
        join_with(fields, sep).last() == (if fields.last().len() > 0 {
            fields.last().last()
        } else {
            sep
        }),
    decreases fields.len(),
{
    if fields.len() >= 2 {
        let rest = fields.drop_first();
        let head = fields[0] + seq![sep];
        let tail = join_with(rest, sep);
        if fields.len() > 2 {
            lemma_join_last(rest, sep);
        } else {
            assert(tail == fields[1]);
        }
        let j = head + tail;
        assert(join_with(fields, sep) == j);
        if tail.len() > 0 {
            assert(j.last() == tail.last());
        } else {
            assert(j =~= head);
        }
    }
}

/// The characters of `s`, one by one.
pub fn chars_of(s: &str) -> (r: Vec<char>)
    ensures
        r@ == s@,
{
    let mut r: Vec<char> = Vec::new();
    for c in it: s.chars()
        invariant
            it.seq() == s@,
            r@ == it.seq().take(it.index() as int),
    {
        r.push(c);
    }
    r
}

/// The first position in `from..to` that holds `c`, or `to` where none does.
pub fn index_of(v: &Vec<char>, c: char, from: usize, to: usize) -> (r: usize)
    requires
        from <= to <= v.len(),
    ensures
        from <= r <= to,
        free_of(v@.subrange(from as int, r as int), c),
        r < to ==> v@[r as int] == c,
{
    let mut k = from;
    while k < to
        invariant
            from <= k <= to <= v.len(),
            free_of(v@.subrange(from as int, k as int), c),
        decreases to - k,
    {
        if v[k] == c {
            return k;
        }
        k = k + 1;
    }
    k
}

/// Whether `pat` stands in `text` from position `i` on.
pub fn matches_at(text: &Vec<char>, pat: &Vec<char>, i: usize) -> (r: bool)
    ensures
        r == occurs_at(text@, pat@, i as int),
{
    if pat.len() > text.len() || i > text.len() - pat.len() {
        return false;
    }
    let mut j: usize = 0;
    while j < pat.len()
        invariant
            i + pat.len() <= text.len(),
            j <= pat.len(),
            forall|k: int| 0 <= k < j ==> text@[i + k] == pat@[k],
        decreases pat.len() - j,
    {
        if text[i + j] != pat[j] {
            assert(text@.subrange(i as int, i + pat.len())[j as int] != pat@[j as int]);
            return false;
        }
        j = j + 1;
    }
    assert(text@.subrange(i as int, i + pat.len()) =~= pat@);
    true
}

/// Whether two texts are the same.
pub fn same_text(a: &str, b: &str) -> (r: bool)
    ensures
        r == (a@ == b@),
{
    let va = chars_of(a);
    let vb = chars_of(b);
    if va.len() != vb.len() {
        return false;
    }
    let mut i: usize = 0;
    while i < va.len()
        invariant
            va@ == a@,
            vb@ == b@,
            va.len() == vb.len(),
            i <= va.len(),
            forall|k: int| 0 <= k < i ==> va@[k] == vb@[k],
        decreases va.len() - i,
    {
        if va[i] != vb[i] {
            assert(va@[i as int] != vb@[i as int]);
            return false;
        }
        i = i + 1;
    }
    assert(va@ =~= vb@);
    true
}

} // verus!
