//! The component-interaction tokens that settlement messages embed: a
//! delete-delivery button, a per-session deduction button carrying the
//! session id, and a per-reward reveal button carrying the reward id. This
//! module classifies such a token and parses the decimal id it carries.

use vstd::prelude::*;

verus! {

/// The action a component-interaction token asks for.
#[derive(Clone, Copy, PartialEq, Eq, Structural, Debug)]
pub enum ComponentAction {
    DeleteGuildDm,
    DeductSession(u64),
    RevealReward(u64),
}

/// A decimal digit.
pub open spec fn is_digit(c: char) -> bool {
    48 <= c as int <= 57
}

pub open spec fn all_digits(cs: Seq<char>) -> bool {
    forall|i: int| 0 <= i < cs.len() ==> is_digit(#[trigger] cs[i])
}

/// The number a digit string denotes.
pub open spec fn digits_value(cs: Seq<char>) -> int
    decreases cs.len(),
{
    if cs.len() == 0 {
        0
    } else {
        digits_value(cs.drop_last()) * 10 + (cs.last() as int - 48)
    }
}

/// A token of the shape `<tag><digits>`: at least one digit, and a value
/// that fits the id type.
pub open spec fn tagged_id(cs: Seq<char>, tag: Seq<char>) -> bool {
    &&& cs.len() > tag.len()
    &&& cs.subrange(0, tag.len() as int) == tag
    &&& all_digits(cs.skip(tag.len() as int))
    &&& digits_value(cs.skip(tag.len() as int)) <= u64::MAX
}

/// What a token asks for; a token of no known shape asks for nothing.
pub open spec fn action_of(cs: Seq<char>) -> Option<ComponentAction> {
    if cs == "delete_guild_dm"@ {
        Some(ComponentAction::DeleteGuildDm)
    } else if tagged_id(cs, "deduct_session_"@) {
        Some(
            ComponentAction::DeductSession(
                digits_value(cs.skip("deduct_session_"@.len() as int)) as u64,
            ),
        )
    } else if tagged_id(cs, "reveal_reward_"@) {
        Some(
            ComponentAction::RevealReward(
                digits_value(cs.skip("reveal_reward_"@.len() as int)) as u64,
            ),
        )
    } else {
        None
    }
}

/// A longer digit string never denotes a smaller number.
proof fn lemma_digits_value_monotone(cs: Seq<char>, k: int)
    requires
        all_digits(cs),
        0 <= k <= cs.len(),
    ensures
        0 <= digits_value(cs.subrange(0, k)) <= digits_value(cs),
    decreases cs.len() - k,
{
    if k == cs.len() {
        assert(cs.subrange(0, k) =~= cs);
        lemma_digits_value_nonneg(cs);
    } else {
        lemma_digits_value_monotone(cs, k + 1);
        let p = cs.subrange(0, k + 1);
        assert(p.drop_last() =~= cs.subrange(0, k));
        assert(p.last() == cs[k]);
        lemma_digits_value_nonneg(cs.subrange(0, k));
    }
}

proof fn lemma_digits_value_nonneg(cs: Seq<char>)
    requires
        all_digits(cs),
    ensures
        digits_value(cs) >= 0,
    decreases cs.len(),
{
    if cs.len() > 0 {
        assert(all_digits(cs.drop_last())) by {
            assert forall|i: int| 0 <= i < cs.len() - 1 implies is_digit(
                #[trigger] cs.drop_last()[i],
            ) by {
                assert(cs.drop_last()[i] == cs[i]);
            }
        }
        lemma_digits_value_nonneg(cs.drop_last());
    }
}

/// Character-wise string equality.
fn str_equal(a: &str, b: &str) -> (r: bool)
    ensures
        r == (a@ == b@),
{
    let a_len = a.unicode_len();
    let b_len = b.unicode_len();
    if a_len != b_len {
        return false;
    }
    let mut i: usize = 0;
    while i < a_len
        invariant
            i <= a_len,
            a_len == a@.len() == b@.len(),
            forall|j: int| 0 <= j < i ==> a@[j] == b@[j],
        decreases a_len - i,
    {
        if a.get_char(i) != b.get_char(i) {
            return false;
        }
        i = i + 1;
    }
    proof {
        assert(a@ =~= b@);
    }
    true
}

/// Matches `tag` as a prefix of `s` and parses the decimal id after it.
fn parse_tagged_id(s: &str, tag: &str) -> (r: Option<u64>)
    ensures
        match r {
            Some(n) => tagged_id(s@, tag@) && n == digits_value(s@.skip(tag@.len() as int)),
            None => !tagged_id(s@, tag@),
        },
{
    let s_len = s.unicode_len();
    let tag_len = tag.unicode_len();
    if s_len <= tag_len {
        return None;
    }
    let mut i: usize = 0;
    while i < tag_len
        invariant
            i <= tag_len,
            tag_len == tag@.len(),
            s_len == s@.len(),
            tag_len < s_len,
            forall|j: int| 0 <= j < i ==> s@[j] == tag@[j],
        decreases tag_len - i,
    {
        if s.get_char(i) != tag.get_char(i) {
            proof {
                if tagged_id(s@, tag@) {
                    assert(s@.subrange(0, tag@.len() as int)[i as int] == tag@[i as int]);
                }
            }
            return None;
        }
        i = i + 1;
    }
    proof {
        assert(s@.subrange(0, tag@.len() as int) =~= tag@);
    }
    let ghost digits = s@.skip(tag@.len() as int);
    let mut n: u64 = 0;
    let mut i: usize = tag_len;
    while i < s_len
        invariant
            tag_len <= i <= s_len,
            tag_len == tag@.len(),
            s_len == s@.len(),
            digits == s@.skip(tag@.len() as int),
            all_digits(digits.subrange(0, i - tag_len)),
            n == digits_value(digits.subrange(0, i - tag_len)),
        decreases s_len - i,
    {
        let c = s.get_char(i);
        let code = c as u32;
        proof {
            assert(digits[i - tag_len] == s@[i as int]);
        }
        if code < 48 || code > 57 {
            proof {
                assert(!is_digit(s@[i as int]));
            }
            return None;
        }
        let d = (code - 48) as u64;
        let ghost prefix = digits.subrange(0, i - tag_len);
        let ghost prefix2 = digits.subrange(0, i + 1 - tag_len);
        proof {
            assert(prefix2.drop_last() =~= prefix);
            assert(prefix2.last() == digits[i - tag_len]);
            assert(digits_value(prefix2) == n * 10 + d);
            assert forall|j: int| 0 <= j < prefix2.len() implies is_digit(
                #[trigger] prefix2[j],
            ) by {
                assert(prefix2[j] == digits[j]);
                if j < prefix.len() {
                    assert(prefix[j] == digits[j]);
                }
            }
        }
        if n > (u64::MAX - d) / 10 {
            proof {
                vstd::arithmetic::div_mod::lemma_fundamental_div_mod(
                    (u64::MAX - d) as int,
                    10,
                );
                assert(digits_value(prefix2) > u64::MAX);
                if all_digits(digits) {
                    lemma_digits_value_monotone(digits, i + 1 - tag_len);
                    assert(digits_value(digits) > u64::MAX);
                }
            }
            return None;
        }
        n = n * 10 + d;
        i = i + 1;
    }
    proof {
        assert(digits.subrange(0, s@.len() - tag@.len()) =~= digits);
    }
    Some(n)
}

/// Classifies one component-interaction token, parsing the id it carries.
pub fn parse_custom_id(s: &str) -> (r: Option<ComponentAction>)
    ensures
        r == action_of(s@),
{
    if str_equal(s, "delete_guild_dm") {
        Some(ComponentAction::DeleteGuildDm)
    } else if let Some(n) = parse_tagged_id(s, "deduct_session_") {
        Some(ComponentAction::DeductSession(n))
    } else if let Some(n) = parse_tagged_id(s, "reveal_reward_") {
        Some(ComponentAction::RevealReward(n))
    } else {
        None
    }
}

} // verus!
