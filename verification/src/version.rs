use vstd::prelude::*;

verus! {

/// A decimal digit character.
pub open spec fn is_dec_digit(c: char) -> bool {
    48 <= c as u32 <= 57
}

/// The numeric value of a decimal digit character.
pub open spec fn digit_value(c: char) -> int {
    c as u32 - 48
}

/// Every character of the sequence is a decimal digit.
pub open spec fn all_digits(s: Seq<char>) -> bool {
    forall|i: int| 0 <= i < s.len() ==> is_dec_digit(#[trigger] s[i])
}

/// The version text with every '.' removed.
pub open spec fn stripped(s: Seq<char>) -> Seq<char> {
    s.filter(|c: char| c != '.')
}

/// The number that a sequence of decimal digits denotes (most significant
/// digit first); 0 for the empty sequence.
pub open spec fn digits_to_int(s: Seq<char>) -> int
    decreases s.len(),
{
    if s.len() == 0 {
        0
    } else {
        digits_to_int(s.drop_last()) * 10 + digit_value(s.last())
    }
}

/// A version string is acceptable when, after removing the dots, a non-empty
/// string of decimal digits remains whose value fits in sixteen bits.
pub open spec fn version_ok(s: Seq<char>) -> bool {
    &&& stripped(s).len() > 0
    &&& all_digits(stripped(s))
    &&& digits_to_int(stripped(s)) <= u16::MAX
}

/// The number encoded by a version string, once the dots are removed.
pub open spec fn version_value(s: Seq<char>) -> int {
    digits_to_int(stripped(s))
}

/// Removing the dots from `s` with one more character appended either keeps
/// the stripped text (for a dot) or appends that character.
pub proof fn lemma_stripped_push(s: Seq<char>, c: char)
    ensures
        c == '.' ==> stripped(s.push(c)) == stripped(s),
        c != '.' ==> stripped(s.push(c)) == stripped(s).push(c),
{
    let pred = |x: char| x != '.';
    assert(s.push(c) =~= s + seq![c]);
    Seq::<char>::filter_distributes_over_add(s, seq![c], pred);
    reveal_with_fuel(Seq::filter, 3);
    assert(seq![c].drop_last() =~= Seq::<char>::empty());
    if c == '.' {
        assert(seq![c].filter(pred) =~= Seq::<char>::empty());
        assert(stripped(s) + Seq::<char>::empty() =~= stripped(s));
    } else {
        assert(seq![c].filter(pred) =~= seq![c]);
        assert(stripped(s) + seq![c] =~= stripped(s).push(c));
    }
}

/// Parse a dotted version string: remove every '.', then read the remaining
/// characters as a decimal number. Returns `None` exactly when no digits
/// remain, a non-digit character occurs, or the value does not fit in `u16`.
pub fn parse_version(s: &str) -> (r: Option<u16>)
    ensures
        r is Some <==> version_ok(s@),
        r is Some ==> r->Some_0 == version_value(s@),
{
    let len = s.unicode_len();
    let mut i: usize = 0;
    let mut acc: u32 = 0;
    let mut over: bool = false;
    let mut any: bool = false;
    while i < len
        invariant
            0 <= i <= len,
            len == s@.len(),
            all_digits(stripped(s@.subrange(0, i as int))),
            any <==> stripped(s@.subrange(0, i as int)).len() > 0,
            !over ==> acc == digits_to_int(stripped(s@.subrange(0, i as int))) && acc <= 65535,
            over ==> digits_to_int(stripped(s@.subrange(0, i as int))) > 65535,
        decreases len - i,
    {
        let c = s.get_char(i);
        let ghost pre = s@.subrange(0, i as int);
        proof {
            assert(s@.subrange(0, i + 1 as int) =~= pre.push(s@[i as int]));
            lemma_stripped_push(pre, c);
        }
        if c != '.' {
            let u = c as u32;
            if u < 48 || u > 57 {
                proof {
                    let st = stripped(s@);
                    let rest = s@.subrange(i + 1 as int, len as int);
                    assert(s@ =~= pre.push(c) + rest);
                    Seq::<char>::filter_distributes_over_add(pre.push(c), rest, |x: char| x != '.');
                    let j = stripped(pre).len() as int;
                    assert(stripped(pre.push(c))[j] == c);
                    assert(st[j] == c);
                    assert(!all_digits(st));
                }
                return None;
            }
            let d = u - 48;
            proof {
                let sp = stripped(pre);
                assert(sp.push(c).drop_last() =~= sp);
                assert(digits_to_int(sp.push(c)) == digits_to_int(sp) * 10 + digit_value(c));
                assert forall|k: int| 0 <= k < sp.push(c).len() implies is_dec_digit(
                    #[trigger] sp.push(c)[k],
                ) by {
                    if k < sp.len() {
                        assert(sp.push(c)[k] == sp[k]);
                    }
                }
            }
            if over || acc > 6553 || (acc == 6553 && d > 5) {
                over = true;
            } else {
                acc = acc * 10 + d;
            }
            any = true;
        }
        i = i + 1;
    }
    proof {
        assert(s@.subrange(0, len as int) =~= s@);
    }
    if !any {
        return None;
    }
    if over {
        proof {
            assert(!version_ok(s@));
        }
        return None;
    }
    Some(acc as u16)
}

} // verus!
