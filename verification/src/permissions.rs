//! Reading of the permission that a configuration string names.

use vstd::prelude::*;
use vstd::string::StringExecFns;
use crate::text::{chars_of, digits_value, is_digit, is_number, lemma_digits_value_grows};

verus! {

/// A permission that a command can ask of its caller.
#[derive(Debug, Clone, Copy, PartialEq, Eq, Structural)]
pub enum Permission {
    Administrator,
    ManageGuild,
    ManageRoles,
    ManageChannels,
    KickMembers,
    BanMembers,
    ModerateMembers,
}

/// What a configuration string asks for: a set of permissions given as the
/// bits of a number, or one permission given by its name.
#[derive(Debug, Clone, Copy, PartialEq, Eq, Structural)]
pub enum PermissionSetting {
    Bits(u64),
    Named(Permission),
}

/// White space: the characters with the Unicode property `White_Space`.
pub open spec fn is_space(c: char) -> bool {
    let n = c as u32;
    ||| 0x09 <= n <= 0x0d
    ||| n == 0x20
    ||| n == 0x85
    ||| n == 0xa0
    ||| n == 0x1680
    ||| 0x2000 <= n <= 0x200a
    ||| n == 0x2028
    ||| n == 0x2029
    ||| n == 0x202f
    ||| n == 0x205f
    ||| n == 0x3000
}

/// `s` without the white space at its start.
pub open spec fn trim_start(s: Seq<char>) -> Seq<char>
    decreases s.len(),
{
    if s.len() > 0 && is_space(s[0]) {
        trim_start(s.skip(1))
    } else {
        s
    }
}

/// `s` without the white space at its end.
pub open spec fn trim_end(s: Seq<char>) -> Seq<char>
    decreases s.len(),
{
    if s.len() > 0 && is_space(s.last()) {
        trim_end(s.drop_last())
    } else {
        s
    }
}

/// `s` without the white space at its start and at its end.
pub open spec fn trimmed(s: Seq<char>) -> Seq<char> {
    trim_end(trim_start(s))
}

/// The number that the digits `s` write, where 64 bits can hold it.
pub open spec fn unsigned_of(s: Seq<char>) -> Option<u64> {
    if is_number(s) && digits_value(s) <= u64::MAX {
        Some(digits_value(s) as u64)
    } else {
        None
    }
}

/// The number that `s` writes: decimal digits, after at most one `+`, with a
/// value that 64 bits can hold. A text of any other form writes no number.
pub open spec fn number_of(s: Seq<char>) -> Option<u64> {
    if s.len() > 0 && s[0] == '+' {
        unsigned_of(s.skip(1))
    } else {
        unsigned_of(s)
    }
}

/// The capital of an ASCII letter; any other character as it is.
pub open spec fn upper_char(c: char) -> char {
    if 0x61 <= c as u32 <= 0x7a {
        ((c as u32 - 0x20) as u8) as char
    } else {
        c
    }
}

/// `s` with its ASCII letters in capitals.
pub open spec fn upper(s: Seq<char>) -> Seq<char> {
    s.map_values(|c: char| upper_char(c))
}

/// The permission that a name in capitals stands for. A name that is not
/// known stands for the management of the guild, as `MANAGE_GUILD` and
/// `MANAGE_SERVER` do.
pub open spec fn named(name: Seq<char>) -> Permission {
    if name == "ADMINISTRATOR"@ {
        Permission::Administrator
    } else if name == "MANAGE_ROLES"@ {
        Permission::ManageRoles
    } else if name == "MANAGE_CHANNELS"@ {
        Permission::ManageChannels
    } else if name == "KICK_MEMBERS"@ {
        Permission::KickMembers
    } else if name == "BAN_MEMBERS"@ {
        Permission::BanMembers
    } else if name == "MODERATE_MEMBERS"@ || name == "TIMEOUT_MEMBERS"@ {
        Permission::ModerateMembers
    } else {
        Permission::ManageGuild
    }
}

/// What the configuration string `s` asks for. White space around it does
/// not count. A number is taken as permission bits; anything else is read as
/// a name, in capitals or not.
pub open spec fn setting_of(s: Seq<char>) -> PermissionSetting {
    let text = trimmed(s);
    match number_of(text) {
        Some(bits) => PermissionSetting::Bits(bits),
        None => PermissionSetting::Named(named(upper(text))),
    }
}

/// Cutting white space off the start leaves a suffix that starts with none.
pub proof fn lemma_trim_start(s: Seq<char>, k: int)
    requires
        0 <= k <= s.len(),
        forall|i: int| 0 <= i < k ==> is_space(#[trigger] s[i]),
        k < s.len() ==> !is_space(s[k]),
    ensures
        trim_start(s) == s.skip(k),
    decreases k,
{
    if k > 0 {
        let rest = s.skip(1);
        assert forall|i: int| 0 <= i < k - 1 implies is_space(#[trigger] rest[i]) by {
            assert(rest[i] == s[i + 1]);
        }
        lemma_trim_start(rest, k - 1);
    }
}

/// Cutting white space off the end leaves a prefix that ends with none.
pub proof fn lemma_trim_end(s: Seq<char>, k: int)
    requires
        0 <= k <= s.len(),
        forall|i: int| k <= i < s.len() ==> is_space(#[trigger] s[i]),
        k > 0 ==> !is_space(s[k - 1]),
    ensures
        trim_end(s) == s.take(k),
    decreases s.len() - k,
{
    if k < s.len() {
        lemma_trim_end(s.drop_last(), k);
    }
}

fn is_space_char(c: char) -> (b: bool)
    ensures
        b == is_space(c),
{
    let n = c as u32;
    (0x09 <= n && n <= 0x0d) || n == 0x20 || n == 0x85 || n == 0xa0 || n == 0x1680 || (0x2000 <= n
        && n <= 0x200a) || n == 0x2028 || n == 0x2029 || n == 0x202f || n == 0x205f || n == 0x3000
}

fn upper_of(c: char) -> (u: char)
    ensures
        u == upper_char(c),
{
    let n = c as u32;
    if 0x61 <= n && n <= 0x7a {
        ((n - 0x20) as u8) as char
    } else {
        c
    }
}

/// Reads `chars[from..to]` as a number.
fn read_number(chars: &Vec<char>, from: usize, to: usize) -> (r: Option<u64>)
    requires
        from <= to <= chars.len(),
    ensures
        r == number_of(chars@.subrange(from as int, to as int)),
{
    let ghost text = chars@.subrange(from as int, to as int);
    let start: usize = if from < to && chars[from] == '+' {
        from + 1
    } else {
        from
    };
    let ghost digits = chars@.subrange(start as int, to as int);
    proof {
        if start > from {
            assert(text.skip(1) == digits);
        }
    }
    if start == to {
        return None;
    }
    let mut value: u64 = 0;
    let mut i: usize = start;
    while i < to
        invariant
            from <= start <= i <= to <= chars.len(),
            start < to,
            digits == chars@.subrange(start as int, to as int),
            number_of(chars@.subrange(from as int, to as int)) == unsigned_of(digits),
            forall|j: int| 0 <= j < i - start ==> is_digit(#[trigger] digits[j]),
            value == digits_value(digits.take(i - start)),
        decreases to - i,
    {
        let n = chars[i] as u32;
        proof {
            assert(digits.take(i - start + 1).drop_last() == digits.take(i - start));
        }
        if n < 0x30 || n > 0x39 {
            assert(!is_digit(digits[i - start]));
            return None;
        }
        let digit = (n - 0x30) as u64;
        let next = match value.checked_mul(10) {
            Some(tens) => tens.checked_add(digit),
            None => None,
        };
        match next {
            Some(v) => {
                value = v;
            },
            None => {
                proof {
                    lemma_digits_value_grows(digits, i - start + 1);
                }
                return None;
            },
        }
        i += 1;
    }
    assert(digits.take(to - start) == digits);
    Some(value)
}

/// Reads the permission that a configuration string asks for.
pub fn parse_permissions(s: &str) -> (setting: PermissionSetting)
    ensures
        setting == setting_of(s@),
{
    let chars = chars_of(s);
    let n = chars.len();
    let mut from: usize = 0;
    while from < n && is_space_char(chars[from])
        invariant
            from <= n == chars.len(),
            forall|i: int| 0 <= i < from ==> is_space(#[trigger] chars@[i]),
        decreases n - from,
    {
        from += 1;
    }
    let mut to: usize = n;
    while to > from && is_space_char(chars[to - 1])
        invariant
            from <= to <= n == chars.len(),
            forall|i: int| to <= i < n ==> is_space(#[trigger] chars@[i]),
        decreases to,
    {
        to -= 1;
    }
    let ghost text = chars@.subrange(from as int, to as int);
    proof {
        lemma_trim_start(chars@, from as int);
        let tail = chars@.skip(from as int);
        assert forall|i: int| to - from <= i < tail.len() implies is_space(#[trigger] tail[i]) by {
            assert(tail[i] == chars@[i + from]);
        }
        lemma_trim_end(tail, to - from);
        assert(trimmed(s@) == text);
    }
    match read_number(&chars, from, to) {
        Some(bits) => PermissionSetting::Bits(bits),
        None => {
            let mut name = String::new();
            let mut i: usize = from;
            while i < to
                invariant
                    from <= i <= to <= chars.len(),
                    text == chars@.subrange(from as int, to as int),
                    name@ == upper(text).take(i - from),
                decreases to - i,
            {
                name.push(upper_of(chars[i]));
                i += 1;
            }
            assert(upper(text).take(to - from) == upper(text));
            PermissionSetting::Named(permission_named(&name))
        },
    }
}

/// The permission that a name in capitals stands for.
fn permission_named(name: &String) -> (p: Permission)
    ensures
        p == named(name@),
{
    if *name == String::from_str("ADMINISTRATOR") {
        Permission::Administrator
    } else if *name == String::from_str("MANAGE_ROLES") {
        Permission::ManageRoles
    } else if *name == String::from_str("MANAGE_CHANNELS") {
        Permission::ManageChannels
    } else if *name == String::from_str("KICK_MEMBERS") {
        Permission::KickMembers
    } else if *name == String::from_str("BAN_MEMBERS") {
        Permission::BanMembers
    } else if *name == String::from_str("MODERATE_MEMBERS") || *name == String::from_str(
        "TIMEOUT_MEMBERS",
    ) {
        Permission::ModerateMembers
    } else {
        Permission::ManageGuild
    }
}

} // verus!
