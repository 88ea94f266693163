//! Text codec for persisted link entries.
//!
//! An entry is stored as structured text: the entry id in decimal, then each
//! string field prefixed by its decimal length, every number terminated by a
//! newline.  Length prefixes make the format unambiguous whatever characters
//! the fields hold, and decoding an encoded entry provably gives the entry
//! back.

use vstd::prelude::*;
use vstd::arithmetic::div_mod::lemma_fundamental_div_mod;

verus! {

pub open spec fn is_digit_char(c: char) -> bool {
    c == '0' || c == '1' || c == '2' || c == '3' || c == '4' || c == '5' || c == '6' || c == '7'
        || c == '8' || c == '9'
}

pub open spec fn digit_char(d: nat) -> char {
    if d == 0 {
        '0'
    } else if d == 1 {
        '1'
    } else if d == 2 {
        '2'
    } else if d == 3 {
        '3'
    } else if d == 4 {
        '4'
    } else if d == 5 {
        '5'
    } else if d == 6 {
        '6'
    } else if d == 7 {
        '7'
    } else if d == 8 {
        '8'
    } else {
        '9'
    }
}

pub open spec fn digit_val(c: char) -> nat {
    if c == '0' {
        0
    } else if c == '1' {
        1
    } else if c == '2' {
        2
    } else if c == '3' {
        3
    } else if c == '4' {
        4
    } else if c == '5' {
        5
    } else if c == '6' {
        6
    } else if c == '7' {
        7
    } else if c == '8' {
        8
    } else {
        9
    }
}

/// The newline terminator of every number in the format.
pub open spec fn nl() -> Seq<char> {
    seq!['\n']
}

/// Decimal representation of `n`, most significant digit first.
pub open spec fn dec_of(n: nat) -> Seq<char>
    decreases n,
{
    if n < 10 {
        seq![digit_char(n)]
    } else {
        dec_of(n / 10).push(digit_char(n % 10))
    }
}

/// Value of the digit string `ds` appended to an already-read value `acc`.
pub open spec fn dec_val_acc(ds: Seq<char>, acc: nat) -> nat
    decreases ds.len(),
{
    if ds.len() == 0 {
        acc
    } else {
        dec_val_acc(ds.drop_first(), acc * 10 + digit_val(ds[0]))
    }
}

pub open spec fn pow10(k: nat) -> nat
    decreases k,
{
    if k == 0 {
        1
    } else {
        10 * pow10((k - 1) as nat)
    }
}

/// Reading a newline-terminated decimal number off the front of `s`:
/// the value read and the remainder of `s`.
pub open spec fn spec_parse_dec(s: Seq<char>, acc: nat) -> Option<(nat, Seq<char>)>
    decreases s.len(),
{
    if s.len() == 0 {
        None
    } else if s[0] == '\n' {
        Some((acc, s.drop_first()))
    } else if is_digit_char(s[0]) {
        spec_parse_dec(s.drop_first(), acc * 10 + digit_val(s[0]))
    } else {
        None
    }
}

/// The stored text of an entry with the given id and fields.
pub open spec fn spec_encode_fields(id: nat, ty: Seq<char>, src: Seq<char>, tgt: Seq<char>) -> Seq<
    char,
> {
    dec_of(id) + nl() + dec_of(ty.len()) + nl() + ty + dec_of(src.len()) + nl() + src + dec_of(
        tgt.len(),
    ) + nl() + tgt
}

/// Decoding stored text back into an id and three fields.
pub open spec fn spec_decode_fields(s: Seq<char>) -> Option<(nat, Seq<char>, Seq<char>, Seq<char>)> {
    match spec_parse_dec(s, 0) {
        Some((id, r1)) => match spec_parse_dec(r1, 0) {
            Some((l1, r2)) => if l1 > r2.len() {
                None
            } else {
                let ty = r2.subrange(0, l1 as int);
                match spec_parse_dec(r2.subrange(l1 as int, r2.len() as int), 0) {
                    Some((l2, r3)) => if l2 > r3.len() {
                        None
                    } else {
                        let src = r3.subrange(0, l2 as int);
                        match spec_parse_dec(r3.subrange(l2 as int, r3.len() as int), 0) {
                            Some((l3, r4)) => if l3 != r4.len() {
                                None
                            } else {
                                Some((id, ty, src, r4))
                            },
                            None => None,
                        }
                    },
                    None => None,
                }
            },
            None => None,
        },
        None => None,
    }
}

proof fn lemma_dec_of_digits(n: nat)
    ensures
        dec_of(n).len() >= 1,
        forall|i: int| 0 <= i < dec_of(n).len() ==> is_digit_char(#[trigger] dec_of(n)[i]),
    decreases n,
{
    if n < 10 {
    } else {
        lemma_dec_of_digits(n / 10);
    }
}

proof fn lemma_dec_val_acc_push(ds: Seq<char>, d: char, acc: nat)
    ensures
        dec_val_acc(ds.push(d), acc) == dec_val_acc(ds, acc) * 10 + digit_val(d),
    decreases ds.len(),
{
    if ds.len() == 0 {
        assert(ds.push(d).drop_first() =~= Seq::<char>::empty());
        assert(ds.push(d)[0] == d);
        assert(dec_val_acc(Seq::<char>::empty(), acc * 10 + digit_val(d)) == acc * 10 + digit_val(
            d,
        ));
        assert(dec_val_acc(ds.push(d), acc) == acc * 10 + digit_val(d));
    } else {
        assert(ds.push(d)[0] == ds[0]);
        assert(ds.push(d).drop_first() =~= ds.drop_first().push(d));
        lemma_dec_val_acc_push(ds.drop_first(), d, acc * 10 + digit_val(ds[0]));
        assert(dec_val_acc(ds.push(d), acc) == dec_val_acc(
            ds.drop_first().push(d),
            acc * 10 + digit_val(ds[0]),
        ));
        assert(dec_val_acc(ds, acc) == dec_val_acc(ds.drop_first(), acc * 10 + digit_val(ds[0])));
    }
}

proof fn lemma_dec_val_acc_of(n: nat, acc: nat)
    ensures
        dec_val_acc(dec_of(n), acc) == acc * pow10(dec_of(n).len()) + n,
    decreases n,
{
    if n < 10 {
        assert(seq![digit_char(n)].drop_first() =~= Seq::<char>::empty());
        assert(digit_val(digit_char(n)) == n);
        assert(dec_val_acc(Seq::<char>::empty(), acc * 10 + n) == acc * 10 + n);
        assert(dec_val_acc(dec_of(n), acc) == acc * 10 + n);
        assert(pow10(0) == 1);
        assert(pow10(1) == 10);
        assert(dec_of(n).len() == 1);
    } else {
        let k = dec_of(n / 10).len();
        lemma_dec_val_acc_of(n / 10, acc);
        lemma_dec_val_acc_push(dec_of(n / 10), digit_char(n % 10), acc);
        assert(digit_val(digit_char(n % 10)) == n % 10);
        assert(dec_val_acc(dec_of(n), acc) == dec_val_acc(dec_of(n / 10), acc) * 10 + n % 10);
        assert(dec_val_acc(dec_of(n), acc) == (acc * pow10(k) + n / 10) * 10 + n % 10);
        lemma_fundamental_div_mod(n as int, 10);
        assert(n == 10 * (n / 10) + n % 10);
        assert((acc * pow10(k) + n / 10) * 10 + n % 10 == acc * (10 * pow10(k)) + (10 * (n / 10)
            + n % 10)) by (nonlinear_arith);
        assert(pow10(k + 1) == 10 * pow10(k));
        assert(dec_of(n).len() == k + 1);
        assert(dec_val_acc(dec_of(n), acc) == acc * pow10(dec_of(n).len()) + n);
    }
}

proof fn lemma_parse_digits(ds: Seq<char>, s: Seq<char>, acc: nat)
    requires
        forall|i: int| 0 <= i < ds.len() ==> is_digit_char(#[trigger] ds[i]),
    ensures
        spec_parse_dec(ds + s, acc) == spec_parse_dec(s, dec_val_acc(ds, acc)),
    decreases ds.len(),
{
    if ds.len() == 0 {
        assert(ds + s =~= s);
    } else {
        assert((ds + s)[0] == ds[0]);
        assert((ds + s).drop_first() =~= ds.drop_first() + s);
        lemma_parse_digits(ds.drop_first(), s, acc * 10 + digit_val(ds[0]));
    }
}

proof fn lemma_parse_val_ge_acc(s: Seq<char>, acc: nat)
    ensures
        spec_parse_dec(s, acc) matches Some(p) ==> p.0 >= acc,
    decreases s.len(),
{
    if s.len() == 0 {
    } else if s[0] == '\n' {
    } else if is_digit_char(s[0]) {
        assert(acc * 10 + digit_val(s[0]) >= acc) by (nonlinear_arith);
        lemma_parse_val_ge_acc(s.drop_first(), acc * 10 + digit_val(s[0]));
    } else {
    }
}

proof fn lemma_parse_rest_len(s: Seq<char>, acc: nat)
    ensures
        spec_parse_dec(s, acc) matches Some(p) ==> p.1.len() < s.len(),
    decreases s.len(),
{
    if s.len() == 0 {
    } else if s[0] == '\n' {
    } else if is_digit_char(s[0]) {
        lemma_parse_rest_len(s.drop_first(), acc * 10 + digit_val(s[0]));
    } else {
    }
}

/// Parsing what `dec_of` printed, then a newline, gives the number back and
/// leaves the rest untouched.
pub proof fn lemma_parse_of_dec(n: nat, rest: Seq<char>)
    ensures
        spec_parse_dec(dec_of(n) + nl() + rest, 0) == Some((n, rest)),
{
    lemma_dec_of_digits(n);
    assert(dec_of(n) + nl() + rest =~= dec_of(n) + (nl() + rest));
    lemma_parse_digits(dec_of(n), nl() + rest, 0);
    lemma_dec_val_acc_of(n, 0);
    assert((nl() + rest)[0] == '\n');
    assert((nl() + rest).drop_first() =~= rest);
}

/// Decimal representations of distinct numbers differ.
pub proof fn lemma_dec_of_injective(a: nat, b: nat)
    ensures
        dec_of(a) == dec_of(b) ==> a == b,
{
    if dec_of(a) == dec_of(b) {
        lemma_dec_val_acc_of(a, 0);
        lemma_dec_val_acc_of(b, 0);
    }
}

/// Decoding what `spec_encode_fields` produced gives the id and fields back.
#[verifier::rlimit(60)]
pub proof fn lemma_codec_round_trip(id: nat, ty: Seq<char>, src: Seq<char>, tgt: Seq<char>)
    ensures
        spec_decode_fields(spec_encode_fields(id, ty, src, tgt)) == Some((id, ty, src, tgt)),
{
    let e = spec_encode_fields(id, ty, src, tgt);
    let rest1 = dec_of(ty.len()) + nl() + ty + dec_of(src.len()) + nl() + src + dec_of(tgt.len())
        + nl() + tgt;
    assert(e =~= dec_of(id) + nl() + rest1);
    lemma_parse_of_dec(id, rest1);

    let rest2 = ty + dec_of(src.len()) + nl() + src + dec_of(tgt.len()) + nl() + tgt;
    assert(rest1 =~= dec_of(ty.len()) + nl() + rest2);
    lemma_parse_of_dec(ty.len(), rest2);
    assert(rest2.subrange(0, ty.len() as int) =~= ty);
    let rest3 = dec_of(src.len()) + nl() + src + dec_of(tgt.len()) + nl() + tgt;
    assert(rest2.subrange(ty.len() as int, rest2.len() as int) =~= rest3);

    let rest4 = src + dec_of(tgt.len()) + nl() + tgt;
    assert(rest3 =~= dec_of(src.len()) + nl() + rest4);
    lemma_parse_of_dec(src.len(), rest4);
    assert(rest4.subrange(0, src.len() as int) =~= src);
    let rest5 = dec_of(tgt.len()) + nl() + tgt;
    assert(rest4.subrange(src.len() as int, rest4.len() as int) =~= rest5);

    lemma_parse_of_dec(tgt.len(), tgt);
    assert(rest5 =~= dec_of(tgt.len()) + nl() + tgt);
}

fn digit_str(d: u64) -> (r: &'static str)
    requires
        d < 10,
    ensures
        r@ == seq![digit_char(d as nat)],
{
    if d == 0 {
        proof {
            reveal_strlit("0");
            assert("0"@ =~= seq![digit_char(0)]);
        }
        "0"
    } else if d == 1 {
        proof {
            reveal_strlit("1");
            assert("1"@ =~= seq![digit_char(1)]);
        }
        "1"
    } else if d == 2 {
        proof {
            reveal_strlit("2");
            assert("2"@ =~= seq![digit_char(2)]);
        }
        "2"
    } else if d == 3 {
        proof {
            reveal_strlit("3");
            assert("3"@ =~= seq![digit_char(3)]);
        }
        "3"
    } else if d == 4 {
        proof {
            reveal_strlit("4");
            assert("4"@ =~= seq![digit_char(4)]);
        }
        "4"
    } else if d == 5 {
        proof {
            reveal_strlit("5");
            assert("5"@ =~= seq![digit_char(5)]);
        }
        "5"
    } else if d == 6 {
        proof {
            reveal_strlit("6");
            assert("6"@ =~= seq![digit_char(6)]);
        }
        "6"
    } else if d == 7 {
        proof {
            reveal_strlit("7");
            assert("7"@ =~= seq![digit_char(7)]);
        }
        "7"
    } else if d == 8 {
        proof {
            reveal_strlit("8");
            assert("8"@ =~= seq![digit_char(8)]);
        }
        "8"
    } else {
        proof {
            reveal_strlit("9");
            assert("9"@ =~= seq![digit_char(9)]);
        }
        "9"
    }
}

/// `n` printed in decimal.
pub fn u64_to_dec(n: u64) -> (r: String)
    ensures
        r@ == dec_of(n as nat),
    decreases n,
{
    if n < 10 {
        digit_str(n).to_owned()
    } else {
        let mut r = u64_to_dec(n / 10);
        r.append(digit_str(n % 10));
        proof {
            assert(dec_of((n / 10) as nat) + seq![digit_char((n % 10) as nat)] =~= dec_of(
                n as nat,
            ));
        }
        r
    }
}

fn digit_of_char(c: char) -> (r: Option<u64>)
    ensures
        match r {
            Some(d) => is_digit_char(c) && d < 10 && d as nat == digit_val(c),
            None => !is_digit_char(c),
        },
{
    match c {
        '0' => Some(0),
        '1' => Some(1),
        '2' => Some(2),
        '3' => Some(3),
        '4' => Some(4),
        '5' => Some(5),
        '6' => Some(6),
        '7' => Some(7),
        '8' => Some(8),
        '9' => Some(9),
        _ => None,
    }
}

/// Reads a newline-terminated decimal number out of `s` starting at `pos`,
/// returning the value and the position just past the newline.  `None` when
/// the text is not such a number or its value does not fit in a `u64`.
pub fn parse_dec_from(s: &str, pos: usize) -> (r: Option<(u64, usize)>)
    requires
        pos <= s@.len(),
    ensures
        match spec_parse_dec(s@.subrange(pos as int, s@.len() as int), 0) {
            None => r is None,
            Some(p) => if p.0 <= u64::MAX {
                r matches Some(q) && q.0 as nat == p.0 && pos <= q.1 <= s@.len() && s@.subrange(
                    q.1 as int,
                    s@.len() as int,
                ) == p.1
            } else {
                r is None
            },
        },
{
    let len = s.unicode_len();
    let mut i: usize = pos;
    let mut acc: u64 = 0;
    loop
        invariant
            pos <= i <= len,
            len == s@.len(),
            spec_parse_dec(s@.subrange(pos as int, len as int), 0) == spec_parse_dec(
                s@.subrange(i as int, len as int),
                acc as nat,
            ),
        decreases len - i,
    {
        if i >= len {
            proof {
                assert(s@.subrange(i as int, len as int) =~= Seq::<char>::empty());
            }
            return None;
        }
        let c = s.get_char(i);
        proof {
            assert(s@.subrange(i as int, len as int)[0] == s@[i as int]);
            assert(s@.subrange(i as int, len as int).drop_first() =~= s@.subrange(
                i as int + 1,
                len as int,
            ));
        }
        if c == '\n' {
            return Some((acc, i + 1));
        }
        match digit_of_char(c) {
            None => {
                return None;
            },
            Some(dv) => {
                if acc > 1_844_674_407_370_955_161 || (acc == 1_844_674_407_370_955_161 && dv > 5) {
                    proof {
                        lemma_parse_val_ge_acc(
                            s@.subrange(i as int + 1, len as int),
                            (acc * 10 + dv) as nat,
                        );
                    }
                    return None;
                }
                acc = acc * 10 + dv;
                i = i + 1;
            },
        }
    }
}

/// The stored text of an entry: id, then each field length-prefixed.
pub fn encode_fields(id: u64, ty: &str, src: &str, tgt: &str) -> (r: String)
    ensures
        r@ == spec_encode_fields(id as nat, ty@, src@, tgt@),
{
    let mut r = u64_to_dec(id);
    r.append("\n");
    let tl = ty.unicode_len();
    let tls = u64_to_dec(tl as u64);
    r.append(tls.as_str());
    r.append("\n");
    r.append(ty);
    let sl = src.unicode_len();
    let sls = u64_to_dec(sl as u64);
    r.append(sls.as_str());
    r.append("\n");
    r.append(src);
    let gl = tgt.unicode_len();
    let gls = u64_to_dec(gl as u64);
    r.append(gls.as_str());
    r.append("\n");
    r.append(tgt);
    proof {
        reveal_strlit("\n");
        assert("\n"@ =~= nl());
        assert(r@ =~= spec_encode_fields(id as nat, ty@, src@, tgt@));
    }
    r
}

/// Decodes stored entry text: the id and the three fields, or `None` when the
/// text is not a well-formed entry.
#[verifier::rlimit(60)]
pub fn decode_fields(s: &str) -> (r: Option<(u64, String, String, String)>)
    ensures
        match spec_decode_fields(s@) {
            None => r is None,
            Some(f) => if f.0 <= u64::MAX {
                r matches Some(q) && q.0 as nat == f.0 && q.1@ == f.1 && q.2@ == f.2 && q.3@ == f.3
            } else {
                r is None
            },
        },
{
    let len = s.unicode_len();
    proof {
        assert(s@.subrange(0, len as int) =~= s@);
    }
    let (id, p1) = match parse_dec_from(s, 0) {
        None => {
            return None;
        },
        Some(x) => x,
    };
    let (l1, p2) = match parse_dec_from(s, p1) {
        None => {
            proof {
                let r1 = s@.subrange(p1 as int, s@.len() as int);
                lemma_parse_rest_len(r1, 0);
                assert(spec_decode_fields(s@) is None);
            }
            return None;
        },
        Some(x) => x,
    };
    proof {
        let r1 = s@.subrange(p1 as int, s@.len() as int);
        let r2 = s@.subrange(p2 as int, s@.len() as int);
        assert(spec_parse_dec(s@, 0) == Some(((id as nat), r1)));
        assert(spec_parse_dec(r1, 0) matches Some(p) && p.0 == l1 as nat && p.1 == r2);
        assert(r2.len() == s@.len() - p2);
    }
    if l1 > (len - p2) as u64 {
        proof {
            assert(spec_decode_fields(s@) is None);
        }
        return None;
    }
    let ty_end = p2 + (l1 as usize);
    let ty = s.substring_char(p2, ty_end);
    proof {
        let r2 = s@.subrange(p2 as int, len as int);
        assert(r2.subrange(0, l1 as int) =~= s@.subrange(p2 as int, ty_end as int));
        assert(r2.subrange(l1 as int, r2.len() as int) =~= s@.subrange(ty_end as int, len as int));
    }
    let (l2, p3) = match parse_dec_from(s, ty_end) {
        None => {
            proof {
                let r2 = s@.subrange(p2 as int, s@.len() as int);
                let r2tail = r2.subrange(l1 as int, r2.len() as int);
                lemma_parse_rest_len(r2tail, 0);
                assert(spec_decode_fields(s@) is None);
            }
            return None;
        },
        Some(x) => x,
    };
    proof {
        let r2 = s@.subrange(p2 as int, s@.len() as int);
        let r2tail = r2.subrange(l1 as int, r2.len() as int);
        let r3 = s@.subrange(p3 as int, s@.len() as int);
        assert(spec_parse_dec(r2tail, 0) matches Some(p) && p.0 == l2 as nat && p.1 == r3);
        assert(r3.len() == s@.len() - p3);
    }
    if l2 > (len - p3) as u64 {
        proof {
            assert(spec_decode_fields(s@) is None);
        }
        return None;
    }
    let src_end = p3 + (l2 as usize);
    let src = s.substring_char(p3, src_end);
    proof {
        let r3 = s@.subrange(p3 as int, len as int);
        assert(r3.subrange(0, l2 as int) =~= s@.subrange(p3 as int, src_end as int));
        assert(r3.subrange(l2 as int, r3.len() as int) =~= s@.subrange(src_end as int, len as int));
    }
    let (l3, p4) = match parse_dec_from(s, src_end) {
        None => {
            proof {
                let r3 = s@.subrange(p3 as int, s@.len() as int);
                let r3tail = r3.subrange(l2 as int, r3.len() as int);
                lemma_parse_rest_len(r3tail, 0);
                assert(spec_decode_fields(s@) is None);
            }
            return None;
        },
        Some(x) => x,
    };
    if l3 != (len - p4) as u64 {
        return None;
    }
    let tgt = s.substring_char(p4, len);
    proof {
        let r4 = s@.subrange(p4 as int, len as int);
        assert(r4.len() == l3 as nat);
    }
    Some((id, ty.to_owned(), src.to_owned(), tgt.to_owned()))
}

} // verus!
