//! Small text helpers: specifications of newline-separated text and the
//! string operations the library needs.
use vstd::prelude::*;
use vstd::std_specs::iter::IteratorSpec;

verus! {

broadcast use vstd::string::group_string_axioms;

/// `s` cut at every newline, as `str::split('\n')` cuts it: the pieces
/// between newlines, always at least one, the last one after the last newline.
pub open spec fn split_newlines(s: Seq<char>) -> Seq<Seq<char>>
    decreases s.len(),
{
    if s.len() == 0 {
        seq![Seq::<char>::empty()]
    } else {
        let parts = split_newlines(s.drop_last());
        if s.last() == '\n' {
            parts.push(Seq::<char>::empty())
        } else {
            parts.update(parts.len() - 1, parts.last().push(s.last()))
        }
    }
}

/// The pieces of `parts` that are not empty, in order.
pub open spec fn non_empty(parts: Seq<Seq<char>>) -> Seq<Seq<char>>
    decreases parts.len(),
{
    if parts.len() == 0 {
        Seq::empty()
    } else if parts.last().len() > 0 {
        non_empty(parts.drop_last()).push(parts.last())
    } else {
        non_empty(parts.drop_last())
    }
}

/// The non-empty lines of `s` that a newline has completed.
pub open spec fn complete_lines(s: Seq<char>) -> Seq<Seq<char>> {
    non_empty(split_newlines(s).drop_last())
}

/// The text after the last newline of `s` (all of `s` if it has none).
pub open spec fn unfinished_line(s: Seq<char>) -> Seq<char> {
    split_newlines(s).last()
}

/// Cutting always gives at least one piece, one more than there are
/// newlines, and no piece holds a newline.
pub proof fn lemma_split_newlines(s: Seq<char>)
    ensures
        split_newlines(s).len() >= 1,
        split_newlines(s).len() == 1 <==> !s.contains('\n'),
        forall|i: int| 0 <= i < split_newlines(s).len() ==> !(#[trigger] split_newlines(s)[i]).contains('\n'),
    decreases s.len(),
{
    if s.len() > 0 {
        let p = s.drop_last();
        lemma_split_newlines(p);
        let parts = split_newlines(p);
        if s.last() == '\n' {
            assert(s.contains('\n')) by { assert(s[s.len() - 1] == '\n'); }
        } else {
            assert(s.contains('\n') <==> p.contains('\n')) by {
                if s.contains('\n') {
                    let j = choose|j: int| 0 <= j < s.len() && s[j] == '\n';
                    assert(p[j] == '\n');
                }
                if p.contains('\n') {
                    let j = choose|j: int| 0 <= j < p.len() && p[j] == '\n';
                    assert(s[j] == '\n');
                }
            }
            let last = parts.last().push(s.last());
            assert forall|i: int| 0 <= i < split_newlines(s).len() implies !(#[trigger] split_newlines(s)[i]).contains('\n') by {
                if i == parts.len() - 1 {
                    assert(!parts[i].contains('\n'));
                    if last.contains('\n') {
                        let j = choose|j: int| 0 <= j < last.len() && last[j] == '\n';
                        assert(parts[i][j] == '\n');
                    }
                }
            }
        }
    }
}

/// No piece that `non_empty` keeps is empty, and each is one of `parts`.
pub proof fn lemma_non_empty(parts: Seq<Seq<char>>)
    ensures
        non_empty(parts).len() <= parts.len(),
        forall|i: int| 0 <= i < non_empty(parts).len() ==> (#[trigger] non_empty(parts)[i]).len() > 0,
        forall|i: int| 0 <= i < non_empty(parts).len() ==> parts.contains(#[trigger] non_empty(parts)[i]),
    decreases parts.len(),
{
    if parts.len() > 0 {
        let p = parts.drop_last();
        lemma_non_empty(p);
        assert forall|i: int| 0 <= i < non_empty(parts).len() implies parts.contains(#[trigger] non_empty(parts)[i]) by {
            if i < non_empty(p).len() {
                let x = non_empty(p)[i];
                assert(p.contains(x));
                let j = choose|j: int| 0 <= j < p.len() && p[j] == x;
                assert(parts[j] == x);
            } else {
                assert(parts[parts.len() - 1] == parts.last());
            }
        }
    }
}

/// `non_empty` keeps exactly the pieces that are not empty, in order.
pub proof fn lemma_non_empty_is_filter(parts: Seq<Seq<char>>)
    ensures
        non_empty(parts) == parts.filter(|p: Seq<char>| p.len() > 0),
    decreases parts.len(),
{
    reveal(Seq::filter);
    if parts.len() > 0 {
        lemma_non_empty_is_filter(parts.drop_last());
    }
}

/// Every non-empty piece that a newline completes is one of the completed
/// lines, and every completed line is such a piece.
pub proof fn lemma_complete_lines_members(s: Seq<char>, p: Seq<char>)
    ensures
        split_newlines(s).drop_last().contains(p) && p.len() > 0 <==> complete_lines(s).contains(p),
{
    let pieces = split_newlines(s).drop_last();
    let keep = |q: Seq<char>| q.len() > 0;
    lemma_non_empty_is_filter(pieces);
    if pieces.contains(p) && p.len() > 0 {
        let j = choose|j: int| 0 <= j < pieces.len() && pieces[j] == p;
        pieces.lemma_filter_contains(keep, j);
    }
    if complete_lines(s).contains(p) {
        let i = choose|i: int| 0 <= i < pieces.filter(keep).len() && pieces.filter(keep)[i] == p;
        pieces.lemma_filter_pred(keep, i);
        pieces.lemma_filter_contains_rev(keep, p);
    }
}

/// Text without a newline is a single piece.
pub proof fn lemma_split_no_newline(t: Seq<char>)
    requires
        !t.contains('\n'),
    ensures
        split_newlines(t) == seq![t],
    decreases t.len(),
{
    if t.len() > 0 {
        let p = t.drop_last();
        assert(!p.contains('\n')) by {
            if p.contains('\n') {
                let j = choose|j: int| 0 <= j < p.len() && p[j] == '\n';
                assert(t[j] == '\n');
            }
        }
        lemma_split_no_newline(p);
        assert(t.last() != '\n') by { assert(t[t.len() - 1] == t.last()); }
        assert(p.push(t.last()) =~= t);
        assert(seq![p].update(0, p.push(t.last())) =~= seq![t]);
    } else {
        assert(t =~= Seq::<char>::empty());
    }
}

/// Cutting `x + y` is cutting `x`, keeping its unfinished piece aside, and
/// cutting that piece followed by `y`.
pub proof fn lemma_split_concat(x: Seq<char>, y: Seq<char>)
    ensures
        split_newlines(x + y) == split_newlines(x).drop_last() + split_newlines(split_newlines(x).last() + y),
    decreases y.len(),
{
    lemma_split_newlines(x);
    let d = split_newlines(x).drop_last();
    let l = split_newlines(x).last();
    if y.len() == 0 {
        assert(x + y =~= x);
        assert(l + y =~= l);
        assert(!l.contains('\n')) by {
            assert(split_newlines(x)[split_newlines(x).len() - 1] == l);
        }
        lemma_split_no_newline(l);
        assert(d + seq![l] =~= split_newlines(x));
    } else {
        let y1 = y.drop_last();
        let c = y.last();
        lemma_split_concat(x, y1);
        let sp = split_newlines(l + y1);
        lemma_split_newlines(l + y1);
        assert((x + y).drop_last() =~= x + y1);
        assert((x + y).last() == c);
        assert((l + y).drop_last() =~= l + y1);
        assert((l + y).last() == c);
        if c == '\n' {
            assert((d + sp).push(Seq::<char>::empty()) =~= d + sp.push(Seq::<char>::empty()));
        } else {
            assert((d + sp).last() == sp.last());
            assert((d + sp).update((d + sp).len() - 1, sp.last().push(c)) =~= d + sp.update(sp.len() - 1, sp.last().push(c)));
        }
    }
}

/// Keeping the non-empty pieces of two runs of pieces is keeping them in
/// each run.
pub proof fn lemma_non_empty_concat(a: Seq<Seq<char>>, b: Seq<Seq<char>>)
    ensures
        non_empty(a + b) == non_empty(a) + non_empty(b),
    decreases b.len(),
{
    if b.len() == 0 {
        assert(a + b =~= a);
        assert(non_empty(a) + non_empty(b) =~= non_empty(a));
    } else {
        lemma_non_empty_concat(a, b.drop_last());
        assert((a + b).drop_last() =~= a + b.drop_last());
        assert((a + b).last() == b.last());
        if b.last().len() > 0 {
            assert(non_empty(a) + non_empty(b.drop_last()).push(b.last()) =~= (non_empty(a) + non_empty(b.drop_last())).push(b.last()));
        }
    }
}

/// Text that reaches a buffer in two parts gives the same completed lines,
/// in the same order, and leaves the same unfinished text as when it reaches
/// it at once.
pub proof fn lemma_lines_in_parts(buffer: Seq<char>, first: Seq<char>, second: Seq<char>)
    ensures
        complete_lines(buffer + first) + complete_lines(unfinished_line(buffer + first) + second)
            == complete_lines(buffer + first + second),
        unfinished_line(unfinished_line(buffer + first) + second) == unfinished_line(buffer + first + second),
{
    let x = buffer + first;
    lemma_split_concat(x, second);
    lemma_split_newlines(x);
    let r = unfinished_line(x) + second;
    lemma_split_newlines(r);
    let d = split_newlines(x).drop_last();
    let s2 = split_newlines(r);
    assert((d + s2).drop_last() =~= d + s2.drop_last());
    lemma_non_empty_concat(d, s2.drop_last());
    assert((d + s2).last() == s2.last());
}

/// The pieces joined back together, a newline between each two.
pub open spec fn join_newlines(parts: Seq<Seq<char>>) -> Seq<char>
    decreases parts.len(),
{
    if parts.len() <= 1 {
        if parts.len() == 0 { Seq::empty() } else { parts[0] }
    } else {
        join_newlines(parts.drop_last()) + seq!['\n'] + parts.last()
    }
}

/// Cutting text at its newlines loses nothing: joining the pieces with
/// newlines gives the text back.
pub proof fn lemma_split_join(s: Seq<char>)
    ensures
        join_newlines(split_newlines(s)) == s,
    decreases s.len(),
{
    if s.len() > 0 {
        let p = s.drop_last();
        lemma_split_join(p);
        lemma_split_newlines(p);
        let parts = split_newlines(p);
        if s.last() == '\n' {
            assert(split_newlines(s).drop_last() =~= parts);
            assert(join_newlines(split_newlines(s)) =~= p + seq!['\n'] + Seq::<char>::empty());
            assert(p.push('\n') =~= s);
        } else {
            let q = parts.update(parts.len() - 1, parts.last().push(s.last()));
            assert(split_newlines(s) == q);
            if parts.len() == 1 {
                assert(parts[0] =~= p);
                assert(q[0] =~= s);
            } else {
                assert(q.drop_last() =~= parts.drop_last());
                assert(join_newlines(q) =~= join_newlines(parts.drop_last()) + seq!['\n'] + parts.last().push(s.last()));
                assert(join_newlines(parts) =~= join_newlines(parts.drop_last()) + seq!['\n'] + parts.last());
                assert(join_newlines(q) =~= p.push(s.last()));
            }
            assert(p.push(s.last()) =~= s);
        }
    }
}

/// The text that lossy UTF-8 decoding makes of `bytes`: invalid sequences
/// become the replacement character.
pub uninterp spec fn utf8_lossy_text(bytes: Seq<u8>) -> Seq<char>;

/// Decodes bytes as UTF-8, replacing invalid sequences.
/// Trusted: `String::from_utf8_lossy`, whose documentation says that valid
/// UTF-8 is decoded as it is; what it makes of invalid input is only named.
#[verifier::external_body]
pub(crate) fn lossy_utf8(bytes: &Vec<u8>) -> (s: String)
    ensures
        s@ == utf8_lossy_text(bytes@),
        vstd::utf8::valid_utf8(bytes@) ==> s@ == vstd::utf8::decode_utf8(bytes@),
{
    String::from_utf8_lossy(bytes.as_slice()).to_string()
}

/// The character of a decimal digit.
pub open spec fn digit_char(d: nat) -> char {
    if d == 0 { '0' } else if d == 1 { '1' } else if d == 2 { '2' } else if d == 3 { '3' }
    else if d == 4 { '4' } else if d == 5 { '5' } else if d == 6 { '6' } else if d == 7 { '7' }
    else if d == 8 { '8' } else { '9' }
}

/// `n` written in decimal, without leading zeros.
pub open spec fn decimal(n: nat) -> Seq<char>
    decreases n,
{
    if n < 10 {
        seq![digit_char(n)]
    } else {
        decimal(n / 10).push(digit_char(n % 10))
    }
}

/// A digit's character is `'0'` moved on by the digit's value.
pub proof fn lemma_digit_char_code(d: nat)
    requires
        d < 10,
    ensures
        digit_char(d) as int == '0' as int + d,
{
}

/// Writing a number in decimal gives at least one character, all of them
/// digits, and its last character is the number's last digit.
pub proof fn lemma_decimal_shape(n: nat)
    ensures
        decimal(n).len() >= 1,
        decimal(n).len() == 1 <==> n < 10,
        decimal(n).last() == digit_char(n % 10),
        n >= 10 ==> decimal(n).drop_last() == decimal(n / 10),
        forall|i: int| 0 <= i < decimal(n).len() ==> '0' <= #[trigger] decimal(n)[i] <= '9',
    decreases n,
{
    if n >= 10 {
        lemma_decimal_shape(n / 10);
        assert(decimal(n).drop_last() =~= decimal(n / 10));
        assert forall|i: int| 0 <= i < decimal(n).len() implies '0' <= #[trigger] decimal(n)[i] <= '9' by {
            if i < decimal(n / 10).len() {
                assert(decimal(n)[i] == decimal(n / 10)[i]);
            }
        }
    }
}

/// Different numbers are written differently: the decimal text of a number
/// determines it.
pub proof fn lemma_decimal_injective(a: nat, b: nat)
    requires
        decimal(a) == decimal(b),
    ensures
        a == b,
    decreases a,
{
    lemma_decimal_shape(a);
    lemma_decimal_shape(b);
    lemma_digit_char_code(a % 10);
    lemma_digit_char_code(b % 10);
    if a >= 10 && b >= 10 {
        lemma_decimal_injective(a / 10, b / 10);
    }
}

fn digit(d: u64) -> (c: char)
    requires
        d < 10,
    ensures
        c == digit_char(d as nat),
{
    if d == 0 { '0' } else if d == 1 { '1' } else if d == 2 { '2' } else if d == 3 { '3' }
    else if d == 4 { '4' } else if d == 5 { '5' } else if d == 6 { '6' } else if d == 7 { '7' }
    else if d == 8 { '8' } else { '9' }
}

/// Appends `n` written in decimal.
pub fn push_decimal(s: &mut String, n: u64)
    ensures
        final(s)@ == old(s)@ + decimal(n as nat),
    decreases n,
{
    if n < 10 {
        push_char(s, digit(n));
        assert(s@ =~= old(s)@ + decimal(n as nat));
    } else {
        push_decimal(s, n / 10);
        push_char(s, digit(n % 10));
        assert(s@ =~= old(s)@ + decimal(n as nat));
    }
}

/// Appends one character.
/// Trusted: `String::push`, which appends `c` at the end of the string.
#[verifier::external_body]
pub(crate) fn push_char(s: &mut String, c: char)
    ensures
        final(s)@ == old(s)@.push(c),
{
    s.push(c);
}

/// The characters of `s`, in order.
pub fn chars_of(s: &str) -> (v: Vec<char>)
    ensures
        v@ == s@,
{
    let mut it = s.chars();
    let mut v: Vec<char> = Vec::new();
    let ghost all = s@;
    assert(it.remaining() == all);
    loop
        invariant
            v@ + it.remaining() == all,
            it.obeys_prophetic_iter_laws(),
            it.decrease() is Some,
        ensures
            v@ == all,
        decreases it.decrease()->0,
    {
        let ghost before = it;
        match it.next() {
            Some(c) => {
                proof {
                    assert(before.remaining().len() > 0);
                    assert(before.remaining() == seq![c] + it.remaining()) by {
                        assert(before.remaining() =~= seq![before.remaining()[0]] + before.remaining().drop_first());
                    }
                    assert(v@.push(c) + it.remaining() =~= v@ + before.remaining());
                }
                v.push(c);
            },
            None => {
                assert(v@ + before.remaining() == all);
                assert(v@ =~= all);
                break;
            },
        }
    }
    v
}

/// A string holding `chars[from..to]`.
pub fn string_from_chars(chars: &Vec<char>, from: usize, to: usize) -> (s: String)
    requires
        from <= to <= chars.len(),
    ensures
        s@ == chars@.subrange(from as int, to as int),
{
    let mut s = String::new();
    let mut i = from;
    while i < to
        invariant
            from <= i <= to <= chars.len(),
            s@ == chars@.subrange(from as int, i as int),
        decreases to - i,
    {
        push_char(&mut s, chars[i]);
        assert(s@ =~= chars@.subrange(from as int, i + 1));
        i += 1;
    }
    s
}

} // verus!
