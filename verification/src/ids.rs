//! Identifier generation.
//!
//! Session identifiers are human readable and monotonically suffixed: the
//! first session of a process is `main`, later ones are `main-1`, `main-2`
//! and so on.  Workspace and entity identifiers are freshly generated opaque
//! strings.

use vstd::arithmetic::div_mod::lemma_fundamental_div_mod;
use vstd::prelude::*;
use vstd::string::StringExecFns;

verus! {

/// The character standing for one decimal digit.
pub open spec fn dec_digit_char(d: int) -> char {
    if d == 0 {
        '0'
    } else if d == 1 {
        '1'
    } else if d == 2 {
        '2'
    } else if d == 3 {
        '3'
    } else if d == 4 {
        '4'
    } else if d == 5 {
        '5'
    } else if d == 6 {
        '6'
    } else if d == 7 {
        '7'
    } else if d == 8 {
        '8'
    } else {
        '9'
    }
}

/// Decimal rendering of a natural number, most significant digit first.
pub open spec fn dec_seq(n: nat) -> Seq<char>
    decreases n,
{
    if n < 10 {
        seq![dec_digit_char(n as int)]
    } else {
        dec_seq(n / 10).push(dec_digit_char((n % 10) as int))
    }
}

proof fn lemma_dec_digit_char_injective(a: int, b: int)
    requires
        0 <= a < 10,
        0 <= b < 10,
        dec_digit_char(a) == dec_digit_char(b),
    ensures
        a == b,
{
}

proof fn lemma_dec_seq_len(n: nat)
    ensures
        dec_seq(n).len() >= 1,
        n >= 10 ==> dec_seq(n).len() >= 2,
    decreases n,
{
    if n >= 10 {
        lemma_dec_seq_len(n / 10);
    }
}

/// Distinct numbers render as distinct digit strings.
pub proof fn lemma_dec_seq_injective(a: nat, b: nat)
    requires
        dec_seq(a) == dec_seq(b),
    ensures
        a == b,
    decreases a,
{
    lemma_dec_seq_len(a);
    lemma_dec_seq_len(b);
    if a < 10 && b < 10 {
        assert(dec_seq(a)[0] == dec_digit_char(a as int));
        assert(dec_seq(b)[0] == dec_digit_char(b as int));
        lemma_dec_digit_char_injective(a as int, b as int);
    } else if a < 10 {
        assert(dec_seq(a).len() == 1);
    } else if b < 10 {
        assert(dec_seq(b).len() == 1);
    } else {
        assert(dec_seq(a).last() == dec_digit_char((a % 10) as int));
        assert(dec_seq(b).last() == dec_digit_char((b % 10) as int));
        lemma_dec_digit_char_injective((a % 10) as int, (b % 10) as int);
        assert(dec_seq(a).drop_last() =~= dec_seq(a / 10));
        assert(dec_seq(b).drop_last() =~= dec_seq(b / 10));
        lemma_dec_seq_injective(a / 10, b / 10);
        lemma_fundamental_div_mod(a as int, 10);
        lemma_fundamental_div_mod(b as int, 10);
    }
}

/// One decimal digit as a string slice.
fn digit_str(d: u64) -> (r: &'static str)
    requires
        d < 10,
    ensures
        r@ == seq![dec_digit_char(d as int)],
{
    proof {
        reveal_strlit("0");
        reveal_strlit("1");
        reveal_strlit("2");
        reveal_strlit("3");
        reveal_strlit("4");
        reveal_strlit("5");
        reveal_strlit("6");
        reveal_strlit("7");
        reveal_strlit("8");
        reveal_strlit("9");
    }
    let r = if d == 0 {
        "0"
    } else if d == 1 {
        "1"
    } else if d == 2 {
        "2"
    } else if d == 3 {
        "3"
    } else if d == 4 {
        "4"
    } else if d == 5 {
        "5"
    } else if d == 6 {
        "6"
    } else if d == 7 {
        "7"
    } else if d == 8 {
        "8"
    } else {
        "9"
    };
    proof {
        assert(r@ =~= seq![dec_digit_char(d as int)]);
    }
    r
}

/// Decimal rendering of `n`.
pub fn dec_string(n: u64) -> (s: String)
    ensures
        s@ == dec_seq(n as nat),
    decreases n,
{
    if n < 10 {
        let s = digit_str(n).to_owned();
        proof {
            assert(s@ =~= dec_seq(n as nat));
        }
        s
    } else {
        let mut s = dec_string(n / 10);
        s.append(digit_str(n % 10));
        proof {
            assert(s@ =~= dec_seq(n as nat));
        }
        s
    }
}

/// The session identifier assigned for the given value of the session counter.
pub open spec fn session_id_seq(c: nat) -> Seq<char> {
    if c == 0 {
        "main"@
    } else {
        "main-"@ + dec_seq(c)
    }
}

/// Distinct counter values yield distinct session identifiers.
pub proof fn lemma_session_id_injective(a: nat, b: nat)
    requires
        session_id_seq(a) == session_id_seq(b),
    ensures
        a == b,
{
    reveal_strlit("main");
    reveal_strlit("main-");
    lemma_dec_seq_len(a);
    lemma_dec_seq_len(b);
    if a == 0 && b == 0 {
    } else if a == 0 || b == 0 {
        assert(session_id_seq(0).len() == 4);
    } else {
        let sa = dec_seq(a);
        let sb = dec_seq(b);
        assert(("main-"@ + sa).len() == 5 + sa.len());
        assert(("main-"@ + sb).len() == 5 + sb.len());
        assert(sa =~= sb) by {
            assert forall|i: int| 0 <= i < sa.len() implies sa[i] == sb[i] by {
                assert(("main-"@ + sa)[5 + i] == sa[i]);
                assert(("main-"@ + sb)[5 + i] == sb[i]);
            }
        }
        lemma_dec_seq_injective(a, b);
    }
}

/// The session identifier for counter value `c`.
pub fn session_id_string(c: u64) -> (s: String)
    ensures
        s@ == session_id_seq(c as nat),
{
    if c == 0 {
        let s = "main".to_owned();
        s
    } else {
        let mut s = "main-".to_owned();
        s.append(dec_string(c).as_str());
        proof {
            assert(s@ =~= session_id_seq(c as nat));
        }
        s
    }
}

/// Relies on `uuid::Uuid::new_v4` and its hyphenated `Display` rendering:
/// a freshly generated random identifier, 36 characters long.  Nothing is
/// promised about which identifier comes back.
#[verifier::external_body]
pub fn fresh_id() -> (r: String)
    ensures
        r@.len() == 36,
{
    uuid::Uuid::new_v4().to_string()
}

} // verus!
