//! The name of the log file: the program's name, the time it started, `.log`.
use vstd::prelude::*;

verus! {

/// The character of the decimal digit `d`.
pub open spec fn digit_char(d: nat) -> char {
    (48 + d) as char
}

/// `n` written in decimal, most significant digit first, without leading zeros.
pub open spec fn decimal(n: nat) -> Seq<char>
    decreases n,
{
    if n < 10 {
        seq![digit_char(n)]
    } else {
        decimal(n / 10).push(digit_char(n % 10))
    }
}

/// The number that the decimal digits `s` stand for.
pub open spec fn decimal_value(s: Seq<char>) -> nat
    decreases s.len(),
{
    if s.len() == 0 {
        0
    } else {
        decimal_value(s.drop_last()) * 10 + ((s.last() as int) - 48) as nat
    }
}

/// `s` is made of decimal digits only.
pub open spec fn all_digits(s: Seq<char>) -> bool {
    forall|i: int| 0 <= i < s.len() ==> '0' <= #[trigger] s[i] <= '9'
}

/// The name of the log file of the program `app_name` started at `time`
/// (seconds since the Unix epoch).
pub open spec fn log_name(app_name: Seq<char>, time: nat) -> Seq<char> {
    app_name + "-"@ + decimal(time) + ".log"@
}

/// Writing a number in decimal and reading it back gives the number; the
/// digits are decimal digits, and the first is not `0` unless the number is 0.
pub proof fn lemma_decimal_reads_back(n: nat)
    ensures
        decimal_value(decimal(n)) == n,
        all_digits(decimal(n)),
        decimal(n).len() >= 1,
        decimal(n)[0] == '0' ==> n == 0,
    decreases n,
{
    if n >= 10 {
        lemma_decimal_reads_back(n / 10);
        let s = decimal(n);
        assert(s.drop_last() =~= decimal(n / 10));
        assert(n == (n / 10) * 10 + n % 10) by (nonlinear_arith);
        assert(s[0] == decimal(n / 10)[0]);
        assert(decimal_value(s) == decimal_value(decimal(n / 10)) * 10 + n % 10);
    } else {
        assert(decimal(n).drop_last() =~= Seq::<char>::empty());
        assert(decimal_value(Seq::<char>::empty()) == 0);
    }
}

/// The log name is the program's name, `-`, the start time and `.log`: what
/// stands between `<app_name>-` and `.log` is made of decimal digits, has no
/// leading zero unless the time is 0, and reads back as the time.
pub proof fn lemma_log_name_holds_time(app_name: Seq<char>, time: nat)
    ensures
        ({
            let r = log_name(app_name, time);
            let a = app_name.len() as int;
            &&& r.len() >= a + 6
            &&& r.subrange(0, a) == app_name
            &&& r[a] == '-'
            &&& r.subrange(r.len() - 4, r.len() as int) == seq!['.', 'l', 'o', 'g']
            &&& all_digits(r.subrange(a + 1, r.len() - 4))
            &&& decimal_value(r.subrange(a + 1, r.len() - 4)) == time
            &&& (r[a + 1] == '0' ==> time == 0)
        }),
{
    reveal_strlit("-");
    reveal_strlit(".log");
    lemma_decimal_reads_back(time);
    let r = log_name(app_name, time);
    let a = app_name.len() as int;
    let d = decimal(time);
    assert(r =~= app_name + seq!['-'] + d + seq!['.', 'l', 'o', 'g']);
    assert(r.subrange(0, a) =~= app_name);
    assert(r.subrange(r.len() - 4, r.len() as int) =~= seq!['.', 'l', 'o', 'g']);
    assert(r.subrange(a + 1, r.len() - 4) =~= d);
    assert(r[a + 1] == d[0]);
}

/// The text of the decimal digit `d`.
fn digit_text(d: u64) -> (r: &'static str)
    requires
        d < 10,
    ensures
        r@ == seq![digit_char(d as nat)],
{
    proof {
        reveal_strlit("0");
        reveal_strlit("1");
        reveal_strlit("2");
        reveal_strlit("3");
        reveal_strlit("4");
        reveal_strlit("5");
        reveal_strlit("6");
        reveal_strlit("7");
        reveal_strlit("8");
        reveal_strlit("9");
    }
    match d {
        0 => "0",
        1 => "1",
        2 => "2",
        3 => "3",
        4 => "4",
        5 => "5",
        6 => "6",
        7 => "7",
        8 => "8",
        _ => "9",
    }
}

/// Appends `n`, written in decimal, to `s`.
fn push_decimal(s: &mut String, n: u64)
    ensures
        final(s)@ == old(s)@ + decimal(n as nat),
    decreases n,
{
    if n >= 10 {
        push_decimal(s, n / 10);
    }
    s.append(digit_text(n % 10));
    assert(n < 10 ==> decimal(n as nat) =~= seq![digit_char(n as nat)]);
}

/// The name of the log file of the program `app_name` started at `time`
/// (seconds since the Unix epoch): `<app_name>-<time>.log`.
pub fn log_file_name(app_name: &str, time: u64) -> (r: String)
    ensures
        r@ == log_name(app_name@, time as nat),
        r@.len() >= app_name@.len() + 6,
        r@.subrange(0, app_name@.len() as int) == app_name@,
        r@[app_name@.len() as int] == '-',
        r@.subrange(r@.len() - 4, r@.len() as int) == seq!['.', 'l', 'o', 'g'],
        all_digits(r@.subrange(app_name@.len() as int + 1, r@.len() - 4)),
        decimal_value(r@.subrange(app_name@.len() as int + 1, r@.len() - 4)) == time,
        r@[app_name@.len() as int + 1] == '0' ==> time == 0,
{
    proof {
        lemma_log_name_holds_time(app_name@, time as nat);
    }
    let mut r = String::from_str(app_name);
    r.append("-");
    push_decimal(&mut r, time);
    r.append(".log");
    r
}

} // verus!
