//! Small string routines shared by the other modules.

use vstd::prelude::*;

verus! {

/// The characters of `text`, in order.
pub fn characters(text: &str) -> (chars: Vec<char>)
    ensures
        chars@ == text@,
{
    let mut chars: Vec<char> = Vec::new();
    for c in it: text.chars()
        invariant
            it.seq() == text@,
            chars@ == text@.take(it.index() as int),
    {
        chars.push(c);
    }
    chars
}

/// The decimal digit that stands for `value`, where `value` is below ten.
pub open spec fn digit(value: nat) -> char {
    if value == 0 {
        '0'
    } else if value == 1 {
        '1'
    } else if value == 2 {
        '2'
    } else if value == 3 {
        '3'
    } else if value == 4 {
        '4'
    } else if value == 5 {
        '5'
    } else if value == 6 {
        '6'
    } else if value == 7 {
        '7'
    } else if value == 8 {
        '8'
    } else {
        '9'
    }
}

/// `value` written in decimal, without sign and without leading zeros.
pub open spec fn decimal(value: nat) -> Seq<char>
    decreases value,
{
    if value < 10 {
        seq![digit(value)]
    } else {
        decimal(value / 10).push(digit(value % 10))
    }
}

fn digit_text(value: u32) -> (text: &'static str)
    requires
        value < 10,
    ensures
        text@ == seq![digit(value as nat)],
{
    proof {
        reveal_strlit("0");
        reveal_strlit("1");
        reveal_strlit("2");
        reveal_strlit("3");
        reveal_strlit("4");
        reveal_strlit("5");
        reveal_strlit("6");
        reveal_strlit("7");
        reveal_strlit("8");
        reveal_strlit("9");
    }
    let text = if value == 0 {
        "0"
    } else if value == 1 {
        "1"
    } else if value == 2 {
        "2"
    } else if value == 3 {
        "3"
    } else if value == 4 {
        "4"
    } else if value == 5 {
        "5"
    } else if value == 6 {
        "6"
    } else if value == 7 {
        "7"
    } else if value == 8 {
        "8"
    } else {
        "9"
    };
    assert(text@ =~= seq![digit(value as nat)]);
    text
}

/// Writes `value` in decimal.
pub fn decimal_string(value: u32) -> (text: String)
    ensures
        text@ == decimal(value as nat),
    decreases value,
{
    if value < 10 {
        String::from_str(digit_text(value))
    } else {
        let mut text = decimal_string(value / 10);
        text.append(digit_text(value % 10));
        assert(text@ =~= decimal((value / 10) as nat).push(digit((value % 10) as nat)));
        text
    }
}

/// The domain suffix that a host name on the local network ends with.
pub open spec fn local_suffix() -> Seq<char> {
    seq!['.', 'l', 'o', 'c', 'a', 'l', '.']
}

/// `hostname` without the local domain suffix at its end, if it ends with
/// one; else `hostname` as it is. Only one suffix is taken off.
pub open spec fn without_local_suffix(hostname: Seq<char>) -> Seq<char> {
    if local_suffix().is_suffix_of(hostname) {
        hostname.take(hostname.len() - local_suffix().len())
    } else {
        hostname
    }
}

/// Takes the suffix `.local.` off the end of `hostname`, if it is there.
pub fn strip_local_suffix(hostname: &str) -> (stripped: String)
    ensures
        stripped@ == without_local_suffix(hostname@),
{
    let chars = characters(hostname);
    let count = chars.len();
    if count >= 7 && chars[count - 7] == '.' && chars[count - 6] == 'l' && chars[count - 5] == 'o'
        && chars[count - 4] == 'c' && chars[count - 3] == 'a' && chars[count - 2] == 'l'
        && chars[count - 1] == '.' {
        assert(local_suffix() =~= hostname@.subrange(count - 7, count as int));
        hostname.substring_char(0, count - 7).to_owned()
    } else {
        proof {
            if local_suffix().is_suffix_of(hostname@) {
                let tail = hostname@.subrange(count - 7, count as int);
                assert(tail[0] == '.' && tail[1] == 'l' && tail[2] == 'o' && tail[3] == 'c'
                    && tail[4] == 'a' && tail[5] == 'l' && tail[6] == '.');
            }
        }
        hostname.to_owned()
    }
}

/// `hostname` with the local domain suffix put behind it.
pub fn with_local_suffix(hostname: &str) -> (qualified: String)
    ensures
        qualified@ == hostname@ + local_suffix(),
{
    proof {
        reveal_strlit(".local.");
    }
    let qualified = String::from_str(hostname).concat(".local.");
    assert(".local."@ =~= local_suffix());
    qualified
}

} // verus!
