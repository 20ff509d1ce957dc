//! String helpers the rest of the library is specified with: splitting on a
//! separator character, joining pieces back, decimal rendering of integers,
//! and trusted wrappers for Unicode case mapping.
use vstd::prelude::*;
use vstd::string::{StrSliceExecFns, StringExecFns};

verus! {

// ---------------------------------------------------------------------------
// Case mapping (trusted: the result of Unicode case folding depends on the
// characters alone, but stating it takes pages; it is only named here).
// ---------------------------------------------------------------------------

pub uninterp spec fn lower_of(s: Seq<char>) -> Seq<char>;

/// Relies on `str::to_lowercase`: the result depends on the characters alone.
#[verifier::external_body]
pub fn lowercase(s: &str) -> (r: String)
    ensures
        r@ == lower_of(s@),
        s@.len() == 0 ==> r@.len() == 0,
{
    s.to_lowercase()
}

pub uninterp spec fn upper_of(s: Seq<char>) -> Seq<char>;

/// Relies on `str::to_uppercase`: the result depends on the characters alone.
#[verifier::external_body]
pub fn uppercase(s: &str) -> (r: String)
    ensures
        r@ == upper_of(s@),
        s@.len() == 0 ==> r@.len() == 0,
{
    s.to_uppercase()
}

// ---------------------------------------------------------------------------
// Decimal rendering
// ---------------------------------------------------------------------------

pub open spec fn digit_char(d: nat) -> char {
    if d == 0 {
        '0'
    } else if d == 1 {
        '1'
    } else if d == 2 {
        '2'
    } else if d == 3 {
        '3'
    } else if d == 4 {
        '4'
    } else if d == 5 {
        '5'
    } else if d == 6 {
        '6'
    } else if d == 7 {
        '7'
    } else if d == 8 {
        '8'
    } else {
        '9'
    }
}

/// The usual decimal digit string of `n`, most significant digit first.
pub open spec fn dec_digits(n: nat) -> Seq<char>
    decreases n,
{
    if n < 10 {
        seq![digit_char(n)]
    } else {
        dec_digits(n / 10) + seq![digit_char(n % 10)]
    }
}

/// Decimal rendering of a signed id: a `-` sign followed by the digits of the
/// absolute value.
pub open spec fn dec_of_i32(i: int) -> Seq<char> {
    if i >= 0 {
        dec_digits(i as nat)
    } else {
        seq!['-'] + dec_digits((-i) as nat)
    }
}

fn digit_str(d: u64) -> (r: &'static str)
    requires
        d < 10,
    ensures
        r@ == seq![digit_char(d as nat)],
{
    proof {
        reveal_strlit("0");
        reveal_strlit("1");
        reveal_strlit("2");
        reveal_strlit("3");
        reveal_strlit("4");
        reveal_strlit("5");
        reveal_strlit("6");
        reveal_strlit("7");
        reveal_strlit("8");
        reveal_strlit("9");
    }
    let r: &'static str = match d {
        0 => "0",
        1 => "1",
        2 => "2",
        3 => "3",
        4 => "4",
        5 => "5",
        6 => "6",
        7 => "7",
        8 => "8",
        _ => "9",
    };
    proof {
        assert(r@ =~= seq![digit_char(d as nat)]);
    }
    r
}

pub fn u64_to_dec(n: u64) -> (r: String)
    ensures
        r@ == dec_digits(n as nat),
    decreases n,
{
    if n < 10 {
        digit_str(n).to_owned()
    } else {
        let mut s = u64_to_dec(n / 10);
        s.append(digit_str(n % 10));
        proof {
            assert((n / 10) as nat == (n as nat) / 10);
            assert((n % 10) as nat == (n as nat) % 10);
        }
        s
    }
}

pub fn i32_to_dec(i: i32) -> (r: String)
    ensures
        r@ == dec_of_i32(i as int),
{
    if i >= 0 {
        u64_to_dec(i as u64)
    } else {
        proof {
            reveal_strlit("-");
        }
        let mut s: String = "-".to_owned();
        proof {
            assert(s@ =~= seq!['-']);
        }
        let abs: u64 = (-(i as i64)) as u64;
        s.append(u64_to_dec(abs).as_str());
        s
    }
}

// ---------------------------------------------------------------------------
// Small executable helpers
// ---------------------------------------------------------------------------

/// Equality of two strings, character for character.
pub fn string_eq(a: &String, b: &String) -> (r: bool)
    ensures
        r == (a@ == b@),
{
    *a == *b
}

/// The elements of `v` from position `k` on, in order.
pub fn tail_from(v: &Vec<String>, k: usize) -> (r: Vec<String>)
    requires
        k <= v.len(),
    ensures
        r.deep_view() == v.deep_view().skip(k as int),
{
    let mut r: Vec<String> = Vec::new();
    let mut i: usize = k;
    proof {
        assert(r.deep_view() =~~= v.deep_view().subrange(k as int, k as int));
    }
    while i < v.len()
        invariant
            k <= i <= v.len(),
            v.deep_view().len() == v.len(),
            r.deep_view() == v.deep_view().subrange(k as int, i as int),
        decreases v.len() - i,
    {
        let ghost old_r = r.deep_view();
        r.push(v[i].clone());
        proof {
            assert(r.deep_view() =~~= old_r.push(v.deep_view()[i as int]));
            assert(r.deep_view() =~~= v.deep_view().subrange(k as int, i as int + 1));
        }
        i += 1;
    }
    proof {
        assert(v.deep_view().subrange(k as int, v.len() as int) =~~= v.deep_view().skip(k as int));
    }
    r
}

// ---------------------------------------------------------------------------
// Splitting on a separator character
// ---------------------------------------------------------------------------

/// The pieces of `s` between occurrences of `sep`, in order; empty pieces are
/// kept, and a string without the separator is the one piece `[s]`.
pub open spec fn spec_split(s: Seq<char>, sep: char) -> Seq<Seq<char>>
    decreases s.len(),
{
    if s.len() == 0 {
        seq![Seq::<char>::empty()]
    } else if s[0] == sep {
        seq![Seq::<char>::empty()] + spec_split(s.drop_first(), sep)
    } else {
        let rest = spec_split(s.drop_first(), sep);
        seq![seq![s[0]] + rest[0]] + rest.drop_first()
    }
}

pub proof fn lemma_split_len(s: Seq<char>, sep: char)
    ensures
        spec_split(s, sep).len() >= 1,
    decreases s.len(),
{
    if s.len() != 0 {
        lemma_split_len(s.drop_first(), sep);
    }
}

/// A separator-free string splits into itself alone.
pub proof fn lemma_split_no_sep(s: Seq<char>, sep: char)
    requires
        forall|k: int| 0 <= k < s.len() ==> s[k] != sep,
    ensures
        spec_split(s, sep) == seq![s],
    decreases s.len(),
{
    if s.len() == 0 {
        assert(spec_split(s, sep) =~~= seq![s]);
    } else {
        lemma_split_no_sep(s.drop_first(), sep);
        lemma_split_len(s.drop_first(), sep);
        assert(spec_split(s, sep) =~~= seq![s]);
    }
}

/// Splitting at the first separator: a separator-free prefix becomes the first
/// piece and the rest splits on its own.
pub proof fn lemma_split_append(prefix: Seq<char>, rest: Seq<char>, sep: char)
    requires
        forall|k: int| 0 <= k < prefix.len() ==> prefix[k] != sep,
    ensures
        spec_split(prefix + seq![sep] + rest, sep) == seq![prefix] + spec_split(rest, sep),
    decreases prefix.len(),
{
    let s = prefix + seq![sep] + rest;
    lemma_split_len(rest, sep);
    if prefix.len() == 0 {
        assert(s[0] == sep);
        assert(s.drop_first() =~= rest);
        assert(spec_split(s, sep) =~~= seq![prefix] + spec_split(rest, sep));
    } else {
        assert(s[0] == prefix[0]);
        assert(s[0] != sep);
        assert(s.drop_first() =~= prefix.drop_first() + seq![sep] + rest);
        lemma_split_append(prefix.drop_first(), rest, sep);
        lemma_split_len(prefix.drop_first() + seq![sep] + rest, sep);
        assert(spec_split(s, sep) =~~= seq![prefix] + spec_split(rest, sep));
    }
}

/// Splits `s` at every occurrence of `sep`, keeping empty pieces.
pub fn split_by(s: &str, sep: char) -> (r: Vec<String>)
    ensures
        r.deep_view() == spec_split(s@, sep),
{
    let n = s.unicode_len();
    let mut out: Vec<String> = Vec::new();
    let mut start: usize = 0;
    let mut i: usize = 0;
    proof {
        assert(s@.subrange(0, n as int) =~= s@);
    }
    while i < n
        invariant
            0 <= start <= i <= n,
            n == s@.len(),
            forall|k: int| start <= k < i ==> s@[k] != sep,
            spec_split(s@, sep) == out.deep_view() + spec_split(
                s@.subrange(start as int, n as int),
                sep,
            ),
        decreases n - i,
    {
        if s.get_char(i) == sep {
            let piece = s.substring_char(start, i).to_owned();
            proof {
                assert(s@.subrange(start as int, n as int) =~= s@.subrange(
                    start as int,
                    i as int,
                ) + seq![sep] + s@.subrange(i as int + 1, n as int));
                lemma_split_append(
                    s@.subrange(start as int, i as int),
                    s@.subrange(i as int + 1, n as int),
                    sep,
                );
            }
            let ghost old_out = out.deep_view();
            out.push(piece);
            proof {
                assert(out.deep_view() =~~= old_out + seq![piece@]);
                assert(spec_split(s@, sep) =~~= out.deep_view() + spec_split(
                    s@.subrange(i as int + 1, n as int),
                    sep,
                ));
            }
            start = i + 1;
        }
        i += 1;
    }
    let last = s.substring_char(start, n).to_owned();
    proof {
        lemma_split_no_sep(s@.subrange(start as int, n as int), sep);
    }
    let ghost old_out = out.deep_view();
    out.push(last);
    proof {
        assert(out.deep_view() =~~= old_out + seq![last@]);
        assert(out.deep_view() =~~= spec_split(s@, sep));
    }
    out
}

// ---------------------------------------------------------------------------
// Joining pieces with a separator string
// ---------------------------------------------------------------------------

/// The pieces laid end to end with `sep` between neighbours.
pub open spec fn spec_join(pieces: Seq<Seq<char>>, sep: Seq<char>) -> Seq<char>
    decreases pieces.len(),
{
    if pieces.len() == 0 {
        Seq::<char>::empty()
    } else if pieces.len() == 1 {
        pieces[0]
    } else {
        pieces[0] + sep + spec_join(pieces.drop_first(), sep)
    }
}

pub proof fn lemma_join_push(pieces: Seq<Seq<char>>, x: Seq<char>, sep: Seq<char>)
    ensures
        spec_join(pieces.push(x), sep) == if pieces.len() == 0 {
            x
        } else {
            spec_join(pieces, sep) + sep + x
        },
    decreases pieces.len(),
{
    let p = pieces.push(x);
    if pieces.len() == 0 {
        assert(p =~~= seq![x]);
    } else if pieces.len() == 1 {
        assert(p.len() == 2);
        assert(p[0] == pieces[0]);
        assert(p.drop_first() =~~= seq![x]);
        assert(spec_join(seq![x], sep) == x);
        assert(spec_join(p, sep) =~= pieces[0] + sep + x);
    } else {
        assert(p.drop_first() =~~= pieces.drop_first().push(x));
        lemma_join_push(pieces.drop_first(), x, sep);
        assert(spec_join(p, sep) =~= spec_join(pieces, sep) + sep + x);
    }
}

/// Joins the pieces with `sep` between neighbours.
pub fn join_with(v: &Vec<String>, sep: &str) -> (r: String)
    ensures
        r@ == spec_join(v.deep_view(), sep@),
{
    let mut r = String::new();
    let mut i: usize = 0;
    proof {
        assert(v.deep_view().take(0) =~~= Seq::<Seq<char>>::empty());
        assert(r@ =~= spec_join(v.deep_view().take(0), sep@));
    }
    while i < v.len()
        invariant
            0 <= i <= v.len(),
            v.deep_view().len() == v.len(),
            r@ == spec_join(v.deep_view().take(i as int), sep@),
        decreases v.len() - i,
    {
        if i > 0 {
            r.append(sep);
        }
        r.append(v[i].as_str());
        proof {
            lemma_join_push(v.deep_view().take(i as int), v.deep_view()[i as int], sep@);
            assert(v.deep_view().take(i as int + 1) =~~= v.deep_view().take(i as int).push(
                v.deep_view()[i as int],
            ));
        }
        i += 1;
    }
    proof {
        assert(v.deep_view().take(v.len() as int) =~~= v.deep_view());
    }
    r
}

} // verus!
