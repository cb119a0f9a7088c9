//! Settings: the flags of the command line, the polling interval, and how a
//! setting is shown.

use vstd::prelude::*;
use vstd::string::*;
use crate::numeral::{digit_run, digits_value, read_number, scan_digits, sign_len};
use crate::model::DomainData;
use crate::text::str_eq;

verus! {

/// The setting that a flag of the command line stands for, if it is one.
pub open spec fn flag_variable_of(flag: Seq<char>) -> Option<Seq<char>> {
    if flag == "--adguard-ip"@ {
        Some("ADGUARD_IP"@)
    } else if flag == "--adguard-port"@ {
        Some("ADGUARD_PORT"@)
    } else if flag == "--adguard-username"@ {
        Some("ADGUARD_USERNAME"@)
    } else if flag == "--adguard-password"@ {
        Some("ADGUARD_PASSWORD"@)
    } else {
        None
    }
}

/// Names the setting that a flag of the command line stands for.
pub fn flag_variable(flag: &str) -> (variable: Option<&'static str>)
    ensures
        match variable {
            Some(name) => flag_variable_of(flag@) == Some(name@),
            None => flag_variable_of(flag@) is None,
        },
{
    if str_eq(flag, "--adguard-ip") {
        Some("ADGUARD_IP")
    } else if str_eq(flag, "--adguard-port") {
        Some("ADGUARD_PORT")
    } else if str_eq(flag, "--adguard-username") {
        Some("ADGUARD_USERNAME")
    } else if str_eq(flag, "--adguard-password") {
        Some("ADGUARD_PASSWORD")
    } else {
        None
    }
}

/// The settings that the arguments from position `at` on assign, in their
/// order: a flag takes the argument after it as its value, and a flag at the
/// very end assigns nothing.
pub open spec fn assignments_from(args: Seq<Seq<char>>, at: int) -> Seq<(Seq<char>, Seq<char>)>
    decreases args.len() - at,
{
    if at < 0 || at >= args.len() {
        Seq::empty()
    } else if flag_variable_of(args[at]) is Some && at + 1 < args.len() {
        seq![(flag_variable_of(args[at])->Some_0, args[at + 1])] + assignments_from(args, at + 2)
    } else {
        assignments_from(args, at + 1)
    }
}

/// The texts of a list of arguments.
pub open spec fn texts_of(args: Seq<String>) -> Seq<Seq<char>> {
    Seq::new(args.len(), |i: int| args[i]@)
}

/// The texts of a list of assignments.
pub open spec fn pairs_of(assignments: Seq<(String, String)>) -> Seq<(Seq<char>, Seq<char>)> {
    Seq::new(assignments.len(), |i: int| (assignments[i].0@, assignments[i].1@))
}

/// Reads the settings that the command line assigns.
pub fn assignments_from_args(args: &Vec<String>) -> (assignments: Vec<(String, String)>)
    ensures
        pairs_of(assignments@) == assignments_from(texts_of(args@), 0),
{
    let ghost texts = texts_of(args@);
    let mut assignments: Vec<(String, String)> = Vec::new();
    let mut i: usize = 0;
    proof {
        assert(pairs_of(assignments@) + assignments_from(texts, 0) =~= assignments_from(texts, 0));
    }
    while i < args.len()
        invariant
            texts == texts_of(args@),
            0 <= i <= args@.len() + 1,
            pairs_of(assignments@) + assignments_from(texts, i as int) == assignments_from(
                texts,
                0,
            ),
        decreases args@.len() + 1 - i,
    {
        let ghost before = pairs_of(assignments@);
        assert(texts[i as int] == args@[i as int]@);
        match flag_variable(args[i].as_str()) {
            Some(name) => {
                if i + 1 < args.len() {
                    assert(texts[i + 1] == args@[i + 1]@);
                    assignments.push((String::from_str(name), args[i + 1].clone()));
                    proof {
                        let pair = (name@, texts[i + 1]);
                        assert(pairs_of(assignments@) =~= before.push(pair));
                        assert(before.push(pair) + assignments_from(texts, i + 2) =~= before + (
                        seq![pair] + assignments_from(texts, i + 2)));
                    }
                    i += 2;
                } else {
                    i += 1;
                }
            },
            None => {
                i += 1;
            },
        }
    }
    proof {
        assert(pairs_of(assignments@) + assignments_from(texts, i as int) =~= pairs_of(
            assignments@,
        ));
    }
    assignments
}

/// Whether `key` holds the word `PASSWORD`.
pub open spec fn names_password(key: Seq<char>) -> bool {
    exists|i: int|
        0 <= i && i + "PASSWORD"@.len() <= key.len() && #[trigger] key.subrange(
            i,
            i + "PASSWORD"@.len(),
        ) == "PASSWORD"@
}

fn contains_password(key: &str) -> (found: bool)
    ensures
        found == names_password(key@),
{
    proof {
        reveal_strlit("PASSWORD");
    }
    let n = key.unicode_len();
    let mut i: usize = 0;
    while i < n && n - i >= 8
        invariant
            n == key@.len(),
            "PASSWORD"@.len() == 8,
            0 <= i <= n,
            forall|j: int|
                0 <= j < i ==> #[trigger] key@.subrange(j, j + "PASSWORD"@.len()) != "PASSWORD"@,
        decreases n - i,
    {
        if str_eq(key.substring_char(i, i + 8), "PASSWORD") {
            return true;
        }
        i += 1;
    }
    false
}

/// A setting's value as it is shown: a password is masked.
pub fn shown_value(key: &str, value: &str) -> (shown: String)
    ensures
        shown@ == if names_password(key@) {
            "******"@
        } else {
            value@
        },
{
    if contains_password(key) {
        String::from_str("******")
    } else {
        String::from_str(value)
    }
}

/// The polling interval in seconds that is used where none is set.
pub const DEFAULT_INTERVAL: u64 = 2;

/// The digits of a count, without the plus sign that may stand before them.
pub open spec fn count_digits(bytes: Seq<u8>) -> Seq<u8> {
    bytes.subrange(sign_len(bytes), bytes.len() as int)
}

/// Whether `bytes` is a run of digits, with or without a plus sign before
/// it, that denotes a number of 64 bits.
pub open spec fn is_count(bytes: Seq<u8>) -> bool {
    &&& sign_len(bytes) < bytes.len()
    &&& digit_run(bytes, sign_len(bytes)) == bytes.len()
    &&& digits_value(count_digits(bytes)) <= u64::MAX
}

/// Reads the polling interval in seconds: [`DEFAULT_INTERVAL`] where none is
/// set, else the number that the setting denotes; `None` where the setting is
/// no such number or denotes too large a one.
pub fn polling_interval(setting: Option<&str>) -> (seconds: Option<u64>)
    ensures
        match setting {
            None => seconds == Some(DEFAULT_INTERVAL),
            Some(text) => if is_count(text.spec_bytes()) {
                seconds == Some(digits_value(count_digits(text.spec_bytes())) as u64)
            } else {
                seconds is None
            },
        },
{
    let text = match setting {
        Some(text) => text,
        None => {
            return Some(DEFAULT_INTERVAL);
        },
    };
    let bytes = text.as_bytes();
    let n = bytes.len();
    let sign: usize = if n > 0 && bytes[0] == 43 {
        1
    } else {
        0
    };
    if sign >= n || scan_digits(bytes, sign) != n {
        return None;
    }
    read_number(bytes, sign, n)
}

/// The entries of all groups, group by group.
pub open spec fn flattened(groups: Seq<Vec<(String, i32)>>) -> Seq<(String, i32)>
    decreases groups.len(),
{
    if groups.len() == 0 {
        Seq::empty()
    } else {
        flattened(groups.drop_last()) + groups.last()@
    }
}

/// Whether `entry` is the list entry of the pair `pair`.
pub open spec fn is_entry_of(entry: DomainData, pair: (String, i32)) -> bool {
    entry.name@ == pair.0@ && entry.count == pair.1
}

/// Turns the ranked names of the statistics, which come as groups of pairs of
/// a name and a count, into one list in the same order.
pub fn flatten_domains(groups: &Vec<Vec<(String, i32)>>) -> (entries: Vec<DomainData>)
    ensures
        entries@.len() == flattened(groups@).len(),
        forall|i: int|
            0 <= i < entries@.len() ==> is_entry_of(#[trigger] entries@[i], flattened(groups@)[i]),
{
    let mut entries: Vec<DomainData> = Vec::new();
    let mut g: usize = 0;
    assert(groups@.subrange(0, 0) =~= Seq::<Vec<(String, i32)>>::empty());
    while g < groups.len()
        invariant
            0 <= g <= groups@.len(),
            entries@.len() == flattened(groups@.subrange(0, g as int)).len(),
            forall|i: int|
                0 <= i < entries@.len() ==> is_entry_of(
                    #[trigger] entries@[i],
                    flattened(groups@.subrange(0, g as int))[i],
                ),
        decreases groups@.len() - g,
    {
        let group = &groups[g];
        let ghost done = flattened(groups@.subrange(0, g as int));
        assert(groups@.subrange(0, g + 1).drop_last() =~= groups@.subrange(0, g as int));
        assert(flattened(groups@.subrange(0, g + 1)) == done + group@);
        let mut j: usize = 0;
        while j < group.len()
            invariant
                0 <= j <= group@.len(),
                entries@.len() == done.len() + j,
                forall|i: int|
                    0 <= i < entries@.len() ==> is_entry_of(
                        #[trigger] entries@[i],
                        (done + group@)[i],
                    ),
            decreases group@.len() - j,
        {
            entries.push(DomainData { name: group[j].0.clone(), count: group[j].1 });
            j += 1;
        }
        g += 1;
    }
    assert(groups@.subrange(0, g as int) =~= groups@);
    entries
}

} // verus!
