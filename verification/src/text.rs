//! Small verified text utilities: decimal rendering of integers, character
//! replacement and removal, and a prefix-free encoding of string sequences
//! whose injectivity underpins the content digest.

use vstd::prelude::*;

verus! {

pub open spec fn digit_char(d: nat) -> char {
    if d == 0 {
        '0'
    } else if d == 1 {
        '1'
    } else if d == 2 {
        '2'
    } else if d == 3 {
        '3'
    } else if d == 4 {
        '4'
    } else if d == 5 {
        '5'
    } else if d == 6 {
        '6'
    } else if d == 7 {
        '7'
    } else if d == 8 {
        '8'
    } else {
        '9'
    }
}

pub open spec fn is_digit_char(c: char) -> bool {
    c == '0' || c == '1' || c == '2' || c == '3' || c == '4' || c == '5' || c == '6' || c == '7'
        || c == '8' || c == '9'
}

/// Decimal rendering of a natural number, most significant digit first.
pub open spec fn dec_nat(n: nat) -> Seq<char>
    decreases n,
{
    if n < 10 {
        seq![digit_char(n)]
    } else {
        dec_nat(n / 10).push(digit_char(n % 10))
    }
}

/// Decimal rendering of an integer, with a leading minus sign when negative.
pub open spec fn dec_int(n: int) -> Seq<char> {
    if n < 0 {
        seq!['-'] + dec_nat((-n) as nat)
    } else {
        dec_nat(n as nat)
    }
}

pub proof fn lemma_dec_nat_digits(n: nat)
    ensures
        dec_nat(n).len() >= 1,
        forall|i: int| 0 <= i < dec_nat(n).len() ==> is_digit_char(#[trigger] dec_nat(n)[i]),
        n >= 10 ==> dec_nat(n).len() >= 2,
    decreases n,
{
    if n >= 10 {
        lemma_dec_nat_digits(n / 10);
    }
}

pub proof fn lemma_dec_nat_injective(a: nat, b: nat)
    requires
        dec_nat(a) == dec_nat(b),
    ensures
        a == b,
    decreases a,
{
    lemma_dec_nat_digits(a);
    lemma_dec_nat_digits(b);
    if a < 10 && b < 10 {
        assert(dec_nat(a)[0] == digit_char(a));
        assert(dec_nat(b)[0] == digit_char(b));
    } else if a < 10 {
        assert(dec_nat(a).len() == 1);
        assert(dec_nat(b).len() >= 2);
    } else if b < 10 {
        assert(dec_nat(a).len() >= 2);
        assert(dec_nat(b).len() == 1);
    } else {
        let la = dec_nat(a).len();
        assert(dec_nat(a).last() == digit_char(a % 10));
        assert(dec_nat(b).last() == digit_char(b % 10));
        assert(a % 10 == b % 10);
        assert(dec_nat(a).drop_last() =~= dec_nat(a / 10));
        assert(dec_nat(b).drop_last() =~= dec_nat(b / 10));
        lemma_dec_nat_injective(a / 10, b / 10);
        assert(a == 10 * (a / 10) + a % 10);
        assert(b == 10 * (b / 10) + b % 10);
    }
}

pub proof fn lemma_dec_int_injective(a: int, b: int)
    requires
        dec_int(a) == dec_int(b),
    ensures
        a == b,
{
    lemma_dec_nat_digits((if a < 0 { -a } else { a }) as nat);
    lemma_dec_nat_digits((if b < 0 { -b } else { b }) as nat);
    if a < 0 && b < 0 {
        assert(dec_int(a).skip(1) =~= dec_nat((-a) as nat));
        assert(dec_int(b).skip(1) =~= dec_nat((-b) as nat));
        lemma_dec_nat_injective((-a) as nat, (-b) as nat);
    } else if a < 0 {
        assert(dec_int(a)[0] == '-');
        assert(is_digit_char(dec_int(b)[0]));
    } else if b < 0 {
        assert(is_digit_char(dec_int(a)[0]));
        assert(dec_int(b)[0] == '-');
    } else {
        lemma_dec_nat_injective(a as nat, b as nat);
    }
}

fn digit_str(d: u64) -> (r: &'static str)
    requires
        d < 10,
    ensures
        r@ =~= seq![digit_char(d as nat)],
{
    proof {
        reveal_strlit("0");
        reveal_strlit("1");
        reveal_strlit("2");
        reveal_strlit("3");
        reveal_strlit("4");
        reveal_strlit("5");
        reveal_strlit("6");
        reveal_strlit("7");
        reveal_strlit("8");
        reveal_strlit("9");
    }
    if d == 0 {
        "0"
    } else if d == 1 {
        "1"
    } else if d == 2 {
        "2"
    } else if d == 3 {
        "3"
    } else if d == 4 {
        "4"
    } else if d == 5 {
        "5"
    } else if d == 6 {
        "6"
    } else if d == 7 {
        "7"
    } else if d == 8 {
        "8"
    } else {
        "9"
    }
}

/// Renders a natural number in decimal.
pub fn u64_to_dec(n: u64) -> (s: String)
    ensures
        s@ == dec_nat(n as nat),
    decreases n,
{
    if n < 10 {
        let mut s = String::new();
        s.append(digit_str(n));
        assert(s@ =~= dec_nat(n as nat));
        s
    } else {
        let mut s = u64_to_dec(n / 10);
        s.append(digit_str(n % 10));
        assert(s@ =~= dec_nat(n as nat));
        s
    }
}

/// Renders a signed integer in decimal.
pub fn i64_to_dec(n: i64) -> (s: String)
    ensures
        s@ == dec_int(n as int),
{
    proof {
        reveal_strlit("-");
    }
    if n >= 0 {
        u64_to_dec(n as u64)
    } else {
        let wide: i128 = -(n as i128);
        let mag: u64 = wide as u64;
        let mut s = String::from_str("-");
        let digits = u64_to_dec(mag);
        s.append(digits.as_str());
        assert(s@ =~= dec_int(n as int));
        s
    }
}

/// One field of the digest: its length in decimal, a separator, then the text.
pub open spec fn enc_part(p: Seq<char>) -> Seq<char> {
    dec_nat(p.len()) + seq![':'] + p
}

/// A sequence of fields, encoded back to back.
pub open spec fn enc_parts(ps: Seq<Seq<char>>) -> Seq<char>
    decreases ps.len(),
{
    if ps.len() == 0 {
        Seq::empty()
    } else {
        enc_part(ps[0]) + enc_parts(ps.drop_first())
    }
}

proof fn lemma_enc_head_injective(a0: Seq<char>, ar: Seq<char>, b0: Seq<char>, br: Seq<char>)
    requires
        enc_part(a0) + ar == enc_part(b0) + br,
    ensures
        a0 == b0,
        ar == br,
{
    let s = enc_part(a0) + ar;
    let da = dec_nat(a0.len());
    let db = dec_nat(b0.len());
    lemma_dec_nat_digits(a0.len());
    lemma_dec_nat_digits(b0.len());
    assert(forall|i: int| 0 <= i < da.len() ==> s[i] == da[i]);
    assert(forall|i: int| 0 <= i < db.len() ==> s[i] == db[i]);
    assert(s[da.len() as int] == ':');
    assert(s[db.len() as int] == ':');
    assert(!is_digit_char(':'));
    if da.len() < db.len() {
        assert(is_digit_char(s[da.len() as int]));
        assert(false);
    }
    if db.len() < da.len() {
        assert(is_digit_char(s[db.len() as int]));
        assert(false);
    }
    assert(da =~= db);
    lemma_dec_nat_injective(a0.len(), b0.len());
    let head: int = da.len() as int + 1;
    assert(forall|i: int| 0 <= i < a0.len() ==> s[head + i] == a0[i]);
    assert(forall|i: int| 0 <= i < b0.len() ==> s[head + i] == b0[i]);
    assert(a0 =~= b0);
    assert(enc_part(a0).len() == enc_part(b0).len());
    assert(s.len() == enc_part(a0).len() + ar.len());
    assert(s.len() == (enc_part(b0) + br).len());
    assert(s.len() == enc_part(b0).len() + br.len());
    assert(ar.len() == br.len());
    let base: int = enc_part(a0).len() as int;
    assert(forall|i: int| 0 <= i < ar.len() ==> s[base + i] == ar[i]);
    assert(forall|i: int| 0 <= i < br.len() ==> (enc_part(b0) + br)[base + i] == br[i]);
    assert(ar =~= br);
}

/// The encoding is prefix-free: equal encodings come from equal field lists.
pub proof fn lemma_enc_parts_injective(a: Seq<Seq<char>>, b: Seq<Seq<char>>)
    requires
        enc_parts(a) == enc_parts(b),
    ensures
        a == b,
    decreases a.len(),
{
    if a.len() == 0 && b.len() == 0 {
        assert(a =~= b);
    } else if a.len() == 0 {
        lemma_dec_nat_digits(b[0].len());
        assert(enc_parts(b).len() >= enc_part(b[0]).len());
        assert(false);
    } else if b.len() == 0 {
        lemma_dec_nat_digits(a[0].len());
        assert(enc_parts(a).len() >= enc_part(a[0]).len());
        assert(false);
    } else {
        lemma_enc_head_injective(
            a[0],
            enc_parts(a.drop_first()),
            b[0],
            enc_parts(b.drop_first()),
        );
        lemma_enc_parts_injective(a.drop_first(), b.drop_first());
        assert(a.len() == b.len());
        assert forall|i: int| 0 <= i < a.len() implies a[i] == b[i] by {
            if i > 0 {
                assert(a[i] == a.drop_first()[i - 1]);
                assert(b[i] == b.drop_first()[i - 1]);
            }
        }
        assert(a =~= b);
    }
}

pub proof fn lemma_enc_parts_snoc(ps: Seq<Seq<char>>, p: Seq<char>)
    ensures
        enc_parts(ps.push(p)) == enc_parts(ps) + enc_part(p),
    decreases ps.len(),
{
    if ps.len() == 0 {
        assert(ps.push(p).drop_first() =~= Seq::<Seq<char>>::empty());
        assert(ps.push(p)[0] == p);
        assert(enc_parts(ps.push(p)) == enc_part(p) + enc_parts(Seq::<Seq<char>>::empty()));
        assert(enc_parts(Seq::<Seq<char>>::empty()) == Seq::<char>::empty());
        assert(enc_parts(ps) == Seq::<char>::empty());
        assert(enc_parts(ps.push(p)) =~= enc_parts(ps) + enc_part(p));
    } else {
        assert(ps.push(p).drop_first() =~= ps.drop_first().push(p));
        lemma_enc_parts_snoc(ps.drop_first(), p);
        assert(ps.push(p)[0] == ps[0]);
        assert(enc_parts(ps.push(p)) == enc_part(ps[0]) + (enc_parts(ps.drop_first())
            + enc_part(p)));
        vstd::seq_lib::lemma_concat_associative(
            enc_part(ps[0]),
            enc_parts(ps.drop_first()),
            enc_part(p),
        );
        assert(enc_parts(ps) == enc_part(ps[0]) + enc_parts(ps.drop_first()));
        assert(enc_parts(ps) + enc_part(p) == (enc_part(ps[0]) + enc_parts(ps.drop_first()))
            + enc_part(p));
        assert((enc_part(ps[0]) + enc_parts(ps.drop_first())) + enc_part(p) == enc_part(ps[0]) + (
        enc_parts(ps.drop_first()) + enc_part(p)));
        assert(enc_parts(ps.push(p)) == enc_parts(ps) + enc_part(p));
    }
}

/// The views of a vector of strings.
pub open spec fn views_of(v: Seq<String>) -> Seq<Seq<char>> {
    v.map_values(|s: String| s@)
}

/// Encodes every field of `parts` back to back, as `enc_parts` describes.
pub fn encode_parts_exec(parts: &Vec<String>) -> (r: String)
    ensures
        r@ == enc_parts(views_of(parts@)),
{
    proof {
        reveal_strlit(":");
    }
    let mut out = String::new();
    let mut i: usize = 0;
    while i < parts.len()
        invariant
            i <= parts.len(),
            out@ == enc_parts(views_of(parts@.subrange(0, i as int))),
        decreases parts.len() - i,
    {
        let p = &parts[i];
        let chars: usize = p.as_str().unicode_len();
        let len_str = u64_to_dec(chars as u64);
        out.append(len_str.as_str());
        out.append(":");
        out.append(p.as_str());
        proof {
            reveal_strlit(":");
            lemma_enc_parts_snoc(views_of(parts@.subrange(0, i as int)), p@);
            assert(views_of(parts@.subrange(0, i + 1)) =~= views_of(
                parts@.subrange(0, i as int),
            ).push(p@));
            assert(":"@ =~= seq![':']);
            assert(enc_part(p@) == dec_nat(p@.len()) + seq![':'] + p@);
            assert(out@ =~= enc_parts(views_of(parts@.subrange(0, i + 1))));
        }
        i = i + 1;
    }
    proof {
        assert(parts@.subrange(0, parts@.len() as int) =~= parts@);
    }
    out
}

/// Compares two string slices character by character.
pub fn str_eq(a: &str, b: &str) -> (r: bool)
    ensures
        r == (a@ == b@),
{
    let na: usize = a.unicode_len();
    let nb: usize = b.unicode_len();
    if na != nb {
        return false;
    }
    let mut i: usize = 0;
    while i < na
        invariant
            i <= na,
            na == a@.len(),
            na == b@.len(),
            forall|j: int| 0 <= j < i ==> a@[j] == b@[j],
        decreases na - i,
    {
        if a.get_char(i) != b.get_char(i) {
            return false;
        }
        i = i + 1;
    }
    proof {
        assert(a@ =~= b@);
    }
    true
}

/// Relies on std's `String::push`: appends exactly the one character.
#[verifier::external_body]
pub(crate) fn push_char(s: &mut String, c: char)
    ensures
        final(s)@ == old(s)@.push(c),
{
    s.push(c);
}

/// The characters of `s` other than `bad`, in order.
pub open spec fn remove_char(s: Seq<char>, bad: char) -> Seq<char> {
    s.filter(|c: char| c != bad)
}

/// Removes every occurrence of `bad` from `s`.
pub fn strip_char(s: &str, bad: char) -> (r: String)
    ensures
        r@ == remove_char(s@, bad),
{
    let n: usize = s.unicode_len();
    let mut r = String::new();
    let mut i: usize = 0;
    proof {
        reveal(Seq::filter);
        assert(s@.subrange(0, 0) =~= Seq::<char>::empty());
    }
    while i < n
        invariant
            i <= n,
            n == s@.len(),
            r@ == remove_char(s@.subrange(0, i as int), bad),
        decreases n - i,
    {
        let c = s.get_char(i);
        if c != bad {
            push_char(&mut r, c);
        }
        proof {
            broadcast use Seq::lemma_filter_push;

            assert(s@.subrange(0, i + 1) =~= s@.subrange(0, i as int).push(c));
        }
        i = i + 1;
    }
    proof {
        assert(s@.subrange(0, s@.len() as int) =~= s@);
    }
    r
}

/// `s` with every occurrence of `from` replaced by `to`.
pub open spec fn replace_char(s: Seq<char>, from: char, to: char) -> Seq<char> {
    Seq::new(s.len(), |i: int| if s[i] == from { to } else { s[i] })
}

/// Replaces every occurrence of `from` in `s` by `to`.
pub fn replace_char_exec(s: &str, from: char, to: char) -> (r: String)
    ensures
        r@ == replace_char(s@, from, to),
{
    let n: usize = s.unicode_len();
    let mut r = String::new();
    let mut i: usize = 0;
    while i < n
        invariant
            i <= n,
            n == s@.len(),
            r@ == replace_char(s@.subrange(0, i as int), from, to),
        decreases n - i,
    {
        let c = s.get_char(i);
        if c == from {
            push_char(&mut r, to);
        } else {
            push_char(&mut r, c);
        }
        proof {
            assert(r@ =~= replace_char(s@.subrange(0, i + 1), from, to));
        }
        i = i + 1;
    }
    proof {
        assert(s@.subrange(0, s@.len() as int) =~= s@);
        assert(r@ =~= replace_char(s@, from, to));
    }
    r
}

} // verus!
