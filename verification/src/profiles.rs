//! Connection profiles: the records the caller's profile store keeps, and
//! the pure list logic the store runs on them.
//!
//! Persistence (JSON on disk) and clock reads stay with the host; the core
//! works on plain values, so a last-use time is seconds since the Unix epoch.

use vstd::prelude::*;
use vstd::string::StrSliceExecFns;
use vstd::string::StringExecFns;

use crate::command::push_char;

verus! {

/// One stored connection profile.
#[derive(Debug, Clone, PartialEq, Eq)]
pub struct ProfileRecord {
    pub id: String,
    pub name: String,
    pub host: String,
    pub user: Option<String>,
    pub port: Option<u16>,
    pub password: Option<String>,
    pub tags: Vec<String>,
    pub favorite: bool,
    /// Seconds since the Unix epoch of the last use, if ever used.
    pub last_used_at: Option<i64>,
}

/// The index of the first profile carrying `id` at or after `from`, or -1.
pub open spec fn first_match_from(s: Seq<ProfileRecord>, id: Seq<char>, from: int) -> int
    decreases s.len() - from,
{
    if from < 0 || from >= s.len() {
        -1
    } else if s[from].id@ == id {
        from
    } else {
        first_match_from(s, id, from + 1)
    }
}

/// The index of the first profile carrying `id`, or -1 when none does.
pub open spec fn first_match(s: Seq<ProfileRecord>, id: Seq<char>) -> int {
    first_match_from(s, id, 0)
}

/// Find the first profile stored under `id`.
pub fn find_profile(profiles: &Vec<ProfileRecord>, id: &String) -> (r: Option<usize>)
    ensures
        match r {
            Some(i) => i == first_match(profiles@, id@) && i < profiles@.len()
                && profiles@[i as int].id@ == id@,
            None => first_match(profiles@, id@) == -1,
        },
{
    let mut i: usize = 0;
    while i < profiles.len()
        invariant
            i <= profiles@.len(),
            first_match(profiles@, id@) == first_match_from(profiles@, id@, i as int),
        decreases profiles@.len() - i,
    {
        if profiles[i].id == *id {
            return Some(i);
        }
        proof {
            assert(first_match_from(profiles@, id@, i as int) == first_match_from(
                profiles@,
                id@,
                i + 1 as int,
            ));
        }
        i += 1;
    }
    None
}

/// Store `profile`: the first profile under the same identifier is replaced
/// in place; when none carries it, the profile is appended.
pub fn upsert_profile(profiles: &mut Vec<ProfileRecord>, profile: ProfileRecord)
    ensures
        first_match(old(profiles)@, profile.id@) == -1 ==> final(profiles)@ == old(
            profiles,
        )@.push(profile),
        first_match(old(profiles)@, profile.id@) >= 0 ==> final(profiles)@ == old(
            profiles,
        )@.update(first_match(old(profiles)@, profile.id@), profile),
{
    let ghost pv = profile;
    match find_profile(profiles, &profile.id) {
        Some(i) => {
            let ghost s_old = profiles@;
            let _replaced = profiles.remove(i);
            profiles.insert(i, profile);
            proof {
                s_old.remove_ensures(i as int);
                assert(profiles@ =~= s_old.update(i as int, pv));
            }
        },
        None => {
            profiles.push(profile);
        },
    }
}

/// Mark the profile under `id` as used now; `now` is the host's clock read.
/// Nothing else about the profile, and nothing about the others, changes.
pub fn touch_profile(profiles: &mut Vec<ProfileRecord>, id: &String, now: i64) -> (r: bool)
    ensures
        r <==> first_match(old(profiles)@, id@) >= 0,
        !r ==> *final(profiles) == *old(profiles),
        r ==> final(profiles)@ == old(profiles)@.update(
            first_match(old(profiles)@, id@),
            (ProfileRecord {
                last_used_at: Some(now),
                ..old(profiles)@[first_match(old(profiles)@, id@)]
            }),
        ),
{
    match find_profile(profiles, id) {
        Some(i) => {
            let ghost s_old = profiles@;
            let mut rec = profiles.remove(i);
            rec.last_used_at = Some(now);
            profiles.insert(i, rec);
            proof {
                s_old.remove_ensures(i as int);
                assert(profiles@ =~= s_old.update(
                    i as int,
                    (ProfileRecord { last_used_at: Some(now), ..s_old[i as int] }),
                ));
            }
            true
        },
        None => false,
    }
}

/// A blank a field of an imported line may be padded with: the characters
/// of Unicode's White_Space set.
pub open spec fn is_blank(c: char) -> bool {
    ||| c == '\t'
    ||| c == '\n'
    ||| c == '\u{000B}'
    ||| c == '\u{000C}'
    ||| c == '\r'
    ||| c == ' '
    ||| c == '\u{0085}'
    ||| c == '\u{00A0}'
    ||| c == '\u{1680}'
    ||| c == '\u{2000}'
    ||| c == '\u{2001}'
    ||| c == '\u{2002}'
    ||| c == '\u{2003}'
    ||| c == '\u{2004}'
    ||| c == '\u{2005}'
    ||| c == '\u{2006}'
    ||| c == '\u{2007}'
    ||| c == '\u{2008}'
    ||| c == '\u{2009}'
    ||| c == '\u{200A}'
    ||| c == '\u{2028}'
    ||| c == '\u{2029}'
    ||| c == '\u{202F}'
    ||| c == '\u{205F}'
    ||| c == '\u{3000}'
}

/// `s` without its leading blanks.
pub open spec fn trim_front(s: Seq<char>) -> Seq<char>
    decreases s.len(),
{
    if s.len() > 0 && is_blank(s[0]) {
        trim_front(s.drop_first())
    } else {
        s
    }
}

/// `s` without its trailing blanks.
pub open spec fn trim_back(s: Seq<char>) -> Seq<char>
    decreases s.len(),
{
    if s.len() > 0 && is_blank(s.last()) {
        trim_back(s.drop_last())
    } else {
        s
    }
}

/// `s` without its leading and trailing blanks.
pub open spec fn trimmed(s: Seq<char>) -> Seq<char> {
    trim_back(trim_front(s))
}

/// The comma-separated raw fields of a line. A line always has at least one
/// field; every comma opens one more, so a trailing comma ends the line with
/// an empty field.
pub open spec fn raw_fields(s: Seq<char>) -> Seq<Seq<char>>
    decreases s.len(),
{
    if s.len() == 0 {
        seq![Seq::<char>::empty()]
    } else if s.last() == ',' {
        raw_fields(s.drop_last()).push(Seq::empty())
    } else {
        let rest = raw_fields(s.drop_last());
        rest.update(rest.len() - 1, rest.last().push(s.last()))
    }
}

/// A line always splits into at least one field.
pub proof fn lemma_raw_fields_nonempty(s: Seq<char>)
    ensures
        raw_fields(s).len() >= 1,
    decreases s.len(),
{
    if s.len() > 0 {
        lemma_raw_fields_nonempty(s.drop_last());
    }
}

/// The fields of one imported line: split on commas, each trimmed.
pub open spec fn csv_fields(s: Seq<char>) -> Seq<Seq<char>> {
    raw_fields(s).map_values(|f: Seq<char>| trimmed(f))
}

/// Whether one character is a blank.
fn blank(c: char) -> (r: bool)
    ensures
        r == is_blank(c),
{
    c == '\t' || c == '\n' || c == '\u{000B}' || c == '\u{000C}' || c == '\r' || c == ' ' || c
        == '\u{0085}' || c == '\u{00A0}' || c == '\u{1680}' || c == '\u{2000}' || c == '\u{2001}'
        || c == '\u{2002}' || c == '\u{2003}' || c == '\u{2004}' || c == '\u{2005}' || c
        == '\u{2006}' || c == '\u{2007}' || c == '\u{2008}' || c == '\u{2009}' || c == '\u{200A}'
        || c == '\u{2028}' || c == '\u{2029}' || c == '\u{202F}' || c == '\u{205F}' || c
        == '\u{3000}'
}

/// The position where the blanks leading `s[i..n]` end.
fn scan_front(s: &str, i: usize, n: usize) -> (r: usize)
    requires
        n == s@.len(),
        i <= n,
    ensures
        i <= r <= n,
        trim_front(s@.subrange(i as int, n as int)) == s@.subrange(r as int, n as int),
    decreases n - i,
{
    if i < n {
        if blank(s.get_char(i)) {
            proof {
                assert(s@.subrange(i as int, n as int).drop_first() =~= s@.subrange(
                    i + 1 as int,
                    n as int,
                ));
            }
            return scan_front(s, i + 1, n);
        }
    }
    i
}

/// The position where the blanks trailing `s[start..end]` begin.
fn scan_back(s: &str, start: usize, end: usize) -> (r: usize)
    requires
        start <= end <= s@.len(),
    ensures
        start <= r <= end,
        trim_back(s@.subrange(start as int, end as int)) == s@.subrange(start as int, r as int),
    decreases end - start,
{
    if end > start {
        if blank(s.get_char(end - 1)) {
            proof {
                assert(s@.subrange(start as int, end as int).drop_last() =~= s@.subrange(
                    start as int,
                    end - 1 as int,
                ));
            }
            return scan_back(s, start, end - 1);
        }
    }
    end
}

/// `s` without its leading and trailing blanks.
pub fn trim_blanks(s: &str) -> (r: String)
    ensures
        r@ == trimmed(s@),
{
    let n = s.unicode_len();
    let start = scan_front(s, 0, n);
    let end = scan_back(s, start, n);
    proof {
        assert(s@.subrange(0, n as int) =~= s@);
    }
    String::from_str(s.substring_char(start, end))
}

/// Split one imported line into its fields: one per comma-separated
/// segment, in order, each without its leading and trailing blanks.
pub fn split_csv_fields(line: &str) -> (r: Vec<String>)
    ensures
        r.deep_view() == csv_fields(line@),
{
    let n = line.unicode_len();
    let mut tokens: Vec<String> = Vec::new();
    tokens.push(String::new());
    proof {
        assert(tokens.deep_view() =~= raw_fields(line@.take(0)));
    }
    let mut i: usize = 0;
    while i < n
        invariant
            n == line@.len(),
            i <= n,
            tokens@.len() >= 1,
            tokens.deep_view() == raw_fields(line@.take(i as int)),
        decreases n - i,
    {
        let c = line.get_char(i);
        let ghost prefix = line@.take(i as int);
        proof {
            assert(line@.take(i + 1 as int).drop_last() =~= prefix);
            assert(line@.take(i + 1 as int).last() == c);
            lemma_raw_fields_nonempty(prefix);
        }
        if c == ',' {
            tokens.push(String::new());
            proof {
                assert(tokens.deep_view() =~= raw_fields(line@.take(i + 1 as int)));
            }
        } else {
            let mut tok = tokens.pop().unwrap();
            push_char(&mut tok, c);
            tokens.push(tok);
            proof {
                assert(tokens.deep_view() =~= raw_fields(line@.take(i + 1 as int)));
            }
        }
        i += 1;
    }
    proof {
        assert(line@.take(n as int) =~= line@);
    }
    let mut fields: Vec<String> = Vec::new();
    let mut k: usize = 0;
    while k < tokens.len()
        invariant
            k <= tokens@.len(),
            tokens.deep_view() == raw_fields(line@),
            fields.deep_view() == csv_fields(line@).take(k as int),
        decreases tokens@.len() - k,
    {
        let trimmed_tok = trim_blanks(tokens[k].as_str());
        let ghost tv = trimmed_tok@;
        let ghost before = fields.deep_view();
        fields.push(trimmed_tok);
        proof {
            assert(tokens[k as int]@ == raw_fields(line@)[k as int]);
            assert(tv == trimmed(raw_fields(line@)[k as int]));
            assert(csv_fields(line@)[k as int] == trimmed(raw_fields(line@)[k as int]));
            assert(fields.deep_view() =~= before.push(tv));
            assert(before.push(tv) =~= csv_fields(line@).take(k + 1 as int));
        }
        k += 1;
    }
    proof {
        assert(csv_fields(line@).take(tokens@.len() as int) =~= csv_fields(line@));
    }
    fields
}

/// Build a profile from the trimmed fields of one imported line,
/// `name,host,user(optional),password(optional)`: an absent or empty user or
/// password becomes none, the port is the default, nothing is tagged and the
/// profile is not yet used. Fewer than two fields is a malformed line.
pub fn profile_from_fields(id: String, fields: &Vec<String>) -> (r: Result<
    ProfileRecord,
    &'static str,
>)
    ensures
        fields@.len() < 2 ==> (r matches Err(m) && m@
            == "Expected format: name,host,user,password(optional)"@),
        fields@.len() >= 2 ==> (r matches Ok(p) && {
            &&& p.id == id
            &&& p.name@ == fields@[0]@
            &&& p.host@ == fields@[1]@
            &&& (if fields@.len() >= 3 && fields@[2]@.len() > 0 {
                p.user matches Some(u) && u@ == fields@[2]@
            } else {
                p.user is None
            })
            &&& (if fields@.len() >= 4 && fields@[3]@.len() > 0 {
                p.password matches Some(w) && w@ == fields@[3]@
            } else {
                p.password is None
            })
            &&& p.port == Some(22u16)
            &&& p.tags@.len() == 0
            &&& p.favorite == false
            &&& p.last_used_at is None
        }),
{
    if fields.len() < 2 {
        return Err("Expected format: name,host,user,password(optional)");
    }
    let user = if fields.len() >= 3 && !fields[2].as_str().is_empty() {
        Some(fields[2].clone())
    } else {
        None
    };
    let password = if fields.len() >= 4 && !fields[3].as_str().is_empty() {
        Some(fields[3].clone())
    } else {
        None
    };
    Ok(
        ProfileRecord {
            id,
            name: fields[0].clone(),
            host: fields[1].clone(),
            user,
            port: Some(22),
            password,
            tags: Vec::new(),
            favorite: false,
            last_used_at: None,
        },
    )
}

} // verus!
