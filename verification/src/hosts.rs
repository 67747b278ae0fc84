//! The hosts file of a jail.
use vstd::prelude::*;

verus! {

/// The digit for a number below ten.
pub open spec fn digit(n: nat) -> char {
    (0x30 + n) as char
}

/// A number in decimal.
pub open spec fn decimal(n: nat) -> Seq<char>
    decreases n,
{
    if n < 10 {
        seq![digit(n)]
    } else {
        decimal(n / 10).push(digit(n % 10))
    }
}

/// Appends a number in decimal.
fn add_decimal(text: &mut String, n: u32)
    ensures
        final(text)@ == old(text)@ + decimal(n as nat),
    decreases n,
{
    let ghost before = text@;
    if n >= 10 {
        add_decimal(text, n / 10);
    }
    let c: char = (0x30u8 + (n % 10) as u8) as char;
    text.push(c);
    assert(text@ =~= before + decimal(n as nat));
}

/// The name of the hosts file of the process with the given number.
pub fn hosts_file_name(pid: u32) -> (name: String)
    ensures
        name@ == "bwrap-hosts."@ + decimal(pid as nat),
{
    let mut name = "bwrap-hosts.".to_owned();
    add_decimal(&mut name, pid);
    name
}

/// What the hosts file of a jail says: that the jail is the local machine.
pub fn hosts_contents() -> (contents: String)
    ensures
        contents@ == "127.0.0.1 localhost ai-sandbox\n::1       localhost ai-sandbox\n"@,
{
    "127.0.0.1 localhost ai-sandbox\n::1       localhost ai-sandbox\n".to_owned()
}

/// The number that a text of digits stands for.
pub open spec fn number_of(digits: Seq<char>) -> int
    decreases digits.len(),
{
    if digits.len() == 0 {
        0
    } else {
        number_of(digits.drop_last()) * 10 + (digits.last() as int - '0' as int)
    }
}

/// A number in decimal is made of digits, stands for that number, and has no leading zero
/// unless it is zero.
pub proof fn decimal_stands_for_the_number(n: nat)
    ensures
        number_of(decimal(n)) == n,
        decimal(n).len() > 0,
        forall|i: int| 0 <= i < decimal(n).len() ==> '0' <= #[trigger] decimal(n)[i] <= '9',
        decimal(n)[0] == '0' ==> n == 0,
    decreases n,
{
    if n < 10 {
        assert(decimal(n) =~= seq![digit(n)]);
        assert(decimal(n).drop_last() =~= Seq::<char>::empty());
        assert(number_of(Seq::<char>::empty()) == 0);
    } else {
        let most = decimal(n / 10);
        decimal_stands_for_the_number(n / 10);
        assert(decimal(n) =~= most.push(digit(n % 10)));
        assert(decimal(n).drop_last() =~= most);
        assert(decimal(n)[0] == most[0]);
    }
}

/// Different processes have hosts files with different names.
pub proof fn hosts_files_are_told_apart(m: nat, n: nat)
    ensures
        "bwrap-hosts."@ + decimal(m) == "bwrap-hosts."@ + decimal(n) ==> m == n,
{
    let title = "bwrap-hosts."@;
    decimal_stands_for_the_number(m);
    decimal_stands_for_the_number(n);
    assert((title + decimal(m)).skip(title.len() as int) =~= decimal(m));
    assert((title + decimal(n)).skip(title.len() as int) =~= decimal(n));
}

} // verus!
