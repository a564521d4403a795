use vstd::prelude::*;

verus! {

/// The decimal digit for `d`, below ten.
pub open spec fn digit_char(d: nat) -> char {
    if d == 0 {
        '0'
    } else if d == 1 {
        '1'
    } else if d == 2 {
        '2'
    } else if d == 3 {
        '3'
    } else if d == 4 {
        '4'
    } else if d == 5 {
        '5'
    } else if d == 6 {
        '6'
    } else if d == 7 {
        '7'
    } else if d == 8 {
        '8'
    } else {
        '9'
    }
}

/// The decimal numeral of `n`, without leading zeros.
pub open spec fn decimal(n: nat) -> Seq<char>
    decreases n,
{
    if n < 10 {
        seq![digit_char(n)]
    } else {
        decimal(n / 10).push(digit_char(n % 10))
    }
}

/// The identifier issued for the `n`-th process.
pub open spec fn process_id_text(n: nat) -> Seq<char> {
    "bg-"@ + decimal(n)
}

fn digit_str(d: u64) -> (r: &'static str)
    requires
        d < 10,
    ensures
        r@ == seq![digit_char(d as nat)],
{
    if d == 0 {
        proof {
            reveal_strlit("0");
        }
        assert("0"@ =~= seq!['0']);
        return "0";
    }
    if d == 1 {
        proof {
            reveal_strlit("1");
        }
        assert("1"@ =~= seq!['1']);
        return "1";
    }
    if d == 2 {
        proof {
            reveal_strlit("2");
        }
        assert("2"@ =~= seq!['2']);
        return "2";
    }
    if d == 3 {
        proof {
            reveal_strlit("3");
        }
        assert("3"@ =~= seq!['3']);
        return "3";
    }
    if d == 4 {
        proof {
            reveal_strlit("4");
        }
        assert("4"@ =~= seq!['4']);
        return "4";
    }
    if d == 5 {
        proof {
            reveal_strlit("5");
        }
        assert("5"@ =~= seq!['5']);
        return "5";
    }
    if d == 6 {
        proof {
            reveal_strlit("6");
        }
        assert("6"@ =~= seq!['6']);
        return "6";
    }
    if d == 7 {
        proof {
            reveal_strlit("7");
        }
        assert("7"@ =~= seq!['7']);
        return "7";
    }
    if d == 8 {
        proof {
            reveal_strlit("8");
        }
        assert("8"@ =~= seq!['8']);
        return "8";
    }
    proof {
        reveal_strlit("9");
    }
    assert("9"@ =~= seq!['9']);
    "9"
}

/// The decimal numeral of `n`.
pub fn decimal_text(n: u64) -> (r: String)
    ensures
        r@ == decimal(n as nat),
    decreases n,
{
    if n < 10 {
        digit_str(n).to_owned()
    } else {
        let head = decimal_text(n / 10);
        let r = head.concat(digit_str(n % 10));
        assert(r@ =~= decimal(n as nat));
        r
    }
}

/// The identifier of the `n`-th process: a fixed prefix and the decimal count.
pub fn process_id(n: u64) -> (r: String)
    ensures
        r@ == process_id_text(n as nat),
{
    let prefix = "bg-";
    prefix.to_owned().concat(decimal_text(n).as_str())
}

proof fn lemma_decimal_len(n: nat)
    ensures
        decimal(n).len() >= 1,
        n >= 10 ==> decimal(n).len() >= 2,
    decreases n,
{
    if n >= 10 {
        lemma_decimal_len(n / 10);
    }
}

/// Distinct numbers have distinct numerals.
pub proof fn lemma_decimal_injective(a: nat, b: nat)
    requires
        decimal(a) == decimal(b),
    ensures
        a == b,
    decreases a,
{
    lemma_decimal_len(a);
    lemma_decimal_len(b);
    if a >= 10 && b >= 10 {
        let da = decimal(a);
        assert(da.last() == digit_char(a % 10));
        assert(decimal(b).last() == digit_char(b % 10));
        assert(a % 10 == b % 10);
        assert(da.drop_last() =~= decimal(a / 10));
        assert(decimal(b).drop_last() =~= decimal(b / 10));
        lemma_decimal_injective(a / 10, b / 10);
    } else if a < 10 && b < 10 {
        assert(decimal(a)[0] == digit_char(a));
        assert(decimal(b)[0] == digit_char(b));
    }
}

/// Processes with different numbers get different identifiers.
pub proof fn lemma_process_ids_distinct(a: nat, b: nat)
    requires
        a != b,
    ensures
        process_id_text(a) != process_id_text(b),
{
    if process_id_text(a) == process_id_text(b) {
        let p = "bg-"@;
        assert(process_id_text(a).subrange(p.len() as int, process_id_text(a).len() as int)
            =~= decimal(a));
        assert(process_id_text(b).subrange(p.len() as int, process_id_text(b).len() as int)
            =~= decimal(b));
        lemma_decimal_injective(a, b);
    }
}

} // verus!
