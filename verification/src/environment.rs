//! Configuration values as a plain association list of variable names to
//! string values, with typed lookups. The list itself is handed in by the
//! process edge; everything here is lookup and parsing.

use vstd::prelude::*;
use vstd::string::StringSliceAdditionalSpecFns;

use crate::http_extra::bytes_eq;
use crate::numeric::{all_dec_digits, dec_value, parse_dec_u64};

verus! {

/// The environment: variable names and values, first match wins.
pub struct Environment {
    pub vars: Vec<(String, String)>,
}

/// Failure to read a configuration value.
#[derive(Debug)]
pub enum Error {
    /// The variable is absent.
    KeyNotFound(String),
    /// The variable's value does not parse; the value is carried here.
    Parse(String),
}

/// The value of the first variable with the given name, by its UTF-8
/// bytes.
pub open spec fn lookup_spec(vars: Seq<(Seq<char>, Seq<char>)>, key: Seq<char>) -> Option<
    Seq<char>,
>
    decreases vars.len(),
{
    if vars.len() == 0 {
        None
    } else if vstd::utf8::encode_utf8(vars[0].0) == vstd::utf8::encode_utf8(key) {
        Some(vars[0].1)
    } else {
        lookup_spec(vars.drop_first(), key)
    }
}

impl Environment {
    /// The variables as sequences.
    pub open spec fn view_vars(&self) -> Seq<(Seq<char>, Seq<char>)> {
        self.vars@.map_values(|v: (String, String)| (v.0@, v.1@))
    }
}

/// Looks a variable up: its value, or `KeyNotFound` naming the variable.
pub fn lookup(environment: &Environment, key: &str) -> (r: Result<String, Error>)
    ensures
        match lookup_spec(environment.view_vars(), key@) {
            Some(v) => r matches Ok(s) && s@ == v,
            None => r matches Err(Error::KeyNotFound(k)) && k@ == key@,
        },
{
    match lookup_optional(environment, key) {
        Some(s) => Ok(s),
        None => Err(Error::KeyNotFound(key.to_owned())),
    }
}

/// Looks a variable up, absence being ordinary.
pub fn lookup_optional(environment: &Environment, key: &str) -> (r: Option<String>)
    ensures
        match lookup_spec(environment.view_vars(), key@) {
            Some(v) => r matches Some(s) && s@ == v,
            None => r is None,
        },
{
    let ghost vs = environment.view_vars();
    proof {
        assert(vs.skip(0) =~= vs);
    }
    let mut i: usize = 0;
    while i < environment.vars.len()
        invariant
            0 <= i <= environment.vars@.len(),
            vs == environment.view_vars(),
            vs.len() == environment.vars@.len(),
            lookup_spec(vs, key@) == lookup_spec(vs.skip(i as int), key@),
        decreases environment.vars@.len() - i,
    {
        proof {
            assert(vs.skip(i as int)[0] == vs[i as int]);
            assert(vs.skip(i as int).drop_first() =~= vs.skip(i as int + 1));
            let ghost vi = environment.vars@[i as int];
            assert(vs[i as int] == (vi.0@, vi.1@));
        }
        if bytes_eq(environment.vars[i].0.as_str().as_bytes(), key.as_bytes()) {
            return Some(environment.vars[i].1.clone());
        }
        i = i + 1;
    }
    proof {
        assert(vs.skip(vs.len() as int) =~= Seq::<(Seq<char>, Seq<char>)>::empty());
    }
    None
}

/// Looks up an unsigned decimal variable: digits only, fitting `u64`.
pub fn lookup_u64(environment: &Environment, key: &str) -> (r: Result<u64, Error>)
    ensures
        match lookup_spec(environment.view_vars(), key@) {
            Some(v) => {
                let b = vstd::utf8::encode_utf8(v);
                if b.len() > 0 && all_dec_digits(b) && dec_value(b) <= u64::MAX as nat {
                    r matches Ok(n) && n as nat == dec_value(b)
                } else {
                    r matches Err(Error::Parse(s)) && s@ == v
                }
            },
            None => r matches Err(Error::KeyNotFound(k)) && k@ == key@,
        },
{
    let raw = match lookup(environment, key) {
        Ok(s) => s,
        Err(e) => {
            return Err(e);
        },
    };
    match parse_dec_u64(raw.as_str().as_bytes()) {
        Some(n) => Ok(n),
        None => Err(Error::Parse(raw)),
    }
}

/// Looks up a boolean variable: exactly `true` or `false`.
pub fn lookup_bool(environment: &Environment, key: &str) -> (r: Result<bool, Error>)
    ensures
        match lookup_spec(environment.view_vars(), key@) {
            Some(v) => {
                let b = vstd::utf8::encode_utf8(v);
                if b == vstd::utf8::encode_utf8("true"@) {
                    r matches Ok(x) && x == true
                } else if b == vstd::utf8::encode_utf8("false"@) {
                    r matches Ok(x) && x == false
                } else {
                    r matches Err(Error::Parse(s)) && s@ == v
                }
            },
            None => r matches Err(Error::KeyNotFound(k)) && k@ == key@,
        },
{
    let raw = match lookup(environment, key) {
        Ok(s) => s,
        Err(e) => {
            return Err(e);
        },
    };
    if bytes_eq(raw.as_str().as_bytes(), "true".as_bytes()) {
        Ok(true)
    } else if bytes_eq(raw.as_str().as_bytes(), "false".as_bytes()) {
        Ok(false)
    } else {
        Err(Error::Parse(raw))
    }
}

/// ASCII whitespace, as trimmed from the ends of each word.
pub open spec fn is_space_char(c: char) -> bool {
    c == ' ' || c == '\t' || c == '\n' || c == '\r'
}

/// The sequence with trailing whitespace characters removed.
pub open spec fn trim_chars_back(s: Seq<char>) -> Seq<char>
    decreases s.len(),
{
    if s.len() > 0 && is_space_char(s.last()) {
        trim_chars_back(s.drop_last())
    } else {
        s
    }
}

/// The sequence with leading whitespace characters removed.
pub open spec fn trim_chars_front(s: Seq<char>) -> Seq<char>
    decreases s.len(),
{
    if s.len() > 0 && is_space_char(s.first()) {
        trim_chars_front(s.drop_first())
    } else {
        s
    }
}

/// The sequence with whitespace removed from both ends.
pub open spec fn trim_chars(s: Seq<char>) -> Seq<char> {
    trim_chars_front(trim_chars_back(s))
}

/// The words of a space-separated string: the pieces between spaces,
/// each trimmed of surrounding whitespace, empty pieces dropped, in
/// order. `cur` is the piece under construction.
pub open spec fn split_words(s: Seq<char>, cur: Seq<char>) -> Seq<Seq<char>>
    decreases s.len(),
{
    if s.len() == 0 {
        if trim_chars(cur).len() > 0 {
            seq![trim_chars(cur)]
        } else {
            Seq::<Seq<char>>::empty()
        }
    } else if s[0] == ' ' {
        (if trim_chars(cur).len() > 0 {
            seq![trim_chars(cur)]
        } else {
            Seq::<Seq<char>>::empty()
        }) + split_words(s.drop_first(), Seq::<char>::empty())
    } else {
        split_words(s.drop_first(), cur.push(s[0]))
    }
}

/// Emits one trimmed word out of the piece `s@[start..end)`, if anything
/// is left of it after trimming.
fn push_trimmed(words: &mut Vec<String>, st: &str, start: usize, end: usize)
    requires
        start <= end <= st@.len(),
    ensures
        final(words)@.map_values(|w: String| w@) == old(words)@.map_values(|w: String| w@) + (
        if trim_chars(st@.subrange(start as int, end as int)).len() > 0 {
            seq![trim_chars(st@.subrange(start as int, end as int))]
        } else {
            Seq::<Seq<char>>::empty()
        }),
{
    let ghost cur = st@.subrange(start as int, end as int);
    let mut we: usize = end;
    loop
        invariant
            start <= we <= end <= st@.len(),
            trim_chars_back(cur) == trim_chars_back(st@.subrange(start as int, we as int)),
        ensures
            start <= we <= end,
            trim_chars_back(cur) == st@.subrange(start as int, we as int),
        decreases we,
    {
        if we == start {
            proof {
                assert(st@.subrange(start as int, start as int) =~= Seq::<char>::empty());
            }
            break;
        }
        let c = st.get_char(we - 1);
        if !(c == ' ' || c == '\t' || c == '\n' || c == '\r') {
            proof {
                assert(!is_space_char(st@.subrange(start as int, we as int).last()));
            }
            break;
        }
        proof {
            assert(st@.subrange(start as int, we as int).last() == st@[we - 1]);
            assert(st@.subrange(start as int, we as int).drop_last() =~= st@.subrange(
                start as int,
                we as int - 1,
            ));
        }
        we = we - 1;
    }
    let ghost backed = st@.subrange(start as int, we as int);
    let mut ws: usize = start;
    loop
        invariant
            start <= ws <= we <= st@.len(),
            trim_chars_front(backed) == trim_chars_front(st@.subrange(ws as int, we as int)),
        ensures
            start <= ws <= we,
            trim_chars_front(backed) == st@.subrange(ws as int, we as int),
        decreases we - ws,
    {
        if ws == we {
            proof {
                assert(st@.subrange(ws as int, ws as int) =~= Seq::<char>::empty());
            }
            break;
        }
        let c = st.get_char(ws);
        if !(c == ' ' || c == '\t' || c == '\n' || c == '\r') {
            proof {
                assert(!is_space_char(st@.subrange(ws as int, we as int).first()));
            }
            break;
        }
        proof {
            assert(st@.subrange(ws as int, we as int).first() == st@[ws as int]);
            assert(st@.subrange(ws as int, we as int).drop_first() =~= st@.subrange(
                ws as int + 1,
                we as int,
            ));
        }
        ws = ws + 1;
    }
    if ws < we {
        let word = st.substring_char(ws, we).to_owned();
        let ghost pre = words@.map_values(|w: String| w@);
        words.push(word);
        proof {
            assert(words@.map_values(|w: String| w@) =~= pre.push(trim_chars(cur)));
            assert(pre.push(trim_chars(cur)) =~= pre + seq![trim_chars(cur)]);
        }
    } else {
        proof {
            assert(trim_chars(cur) =~= Seq::<char>::empty());
            assert(words@.map_values(|w: String| w@) + Seq::<Seq<char>>::empty()
                =~= words@.map_values(|w: String| w@));
        }
    }
}

/// Splits a space-separated string into its non-empty words, each
/// trimmed of surrounding whitespace.
pub fn space_separated_string(s: String) -> (r: Vec<String>)
    ensures
        r@.map_values(|w: String| w@) == split_words(s@, Seq::<char>::empty()),
{
    let st = s.as_str();
    let n = st.unicode_len();
    let mut words: Vec<String> = Vec::new();
    let mut start: usize = 0;
    let mut i: usize = 0;
    proof {
        assert(s@.skip(0) =~= s@);
        assert(s@.subrange(0, 0) =~= Seq::<char>::empty());
        assert(words@.map_values(|w: String| w@) =~= Seq::<Seq<char>>::empty());
        assert(Seq::<Seq<char>>::empty() + split_words(s@, Seq::<char>::empty()) =~= split_words(
            s@,
            Seq::<char>::empty(),
        ));
    }
    while i < n
        invariant
            0 <= start <= i <= n,
            n as nat == s@.len(),
            st@ == s@,
            split_words(s@, Seq::<char>::empty()) == words@.map_values(|w: String| w@)
                + split_words(s@.skip(i as int), s@.subrange(start as int, i as int)),
        decreases n - i,
    {
        let ghost cur = s@.subrange(start as int, i as int);
        proof {
            assert(s@.skip(i as int)[0] == s@[i as int]);
            assert(s@.skip(i as int).drop_first() =~= s@.skip(i as int + 1));
        }
        let c = st.get_char(i);
        if c == ' ' {
            let ghost pre = words@.map_values(|w: String| w@);
            push_trimmed(&mut words, st, start, i);
            proof {
                let emitted = if trim_chars(cur).len() > 0 {
                    seq![trim_chars(cur)]
                } else {
                    Seq::<Seq<char>>::empty()
                };
                assert((pre + emitted) + split_words(s@.skip(i as int + 1), Seq::<char>::empty())
                    =~= pre + (emitted + split_words(s@.skip(i as int + 1), Seq::<char>::empty())));
            }
            start = i + 1;
            proof {
                assert(s@.subrange(start as int, i as int + 1) =~= Seq::<char>::empty());
            }
        } else {
            proof {
                assert(s@.subrange(start as int, i as int + 1) =~= cur.push(s@[i as int]));
            }
        }
        i = i + 1;
    }
    proof {
        assert(s@.skip(n as int) =~= Seq::<char>::empty());
    }
    push_trimmed(&mut words, st, start, n);
    proof {
        let ghost cur = s@.subrange(start as int, n as int);
        if trim_chars(cur).len() == 0 {
            assert(words@.map_values(|w: String| w@) + Seq::<Seq<char>>::empty()
                =~= words@.map_values(|w: String| w@));
        } else {
            assert(words@.map_values(|w: String| w@) =~= words@.map_values(|w: String| w@));
        }
    }
    words
}

impl Error {
    /// A human-readable description of the failure.
    pub open spec fn message_spec(&self) -> Seq<char> {
        match self {
            Error::KeyNotFound(k) => "Environment key not found: "@ + k@,
            Error::Parse(v) => "Failed to parse environment value: "@ + v@,
        }
    }

    /// Describes the failure.
    pub fn message(&self) -> (r: String)
        ensures
            r@ == self.message_spec(),
    {
        match self {
            Error::KeyNotFound(k) => {
                let mut m = <String as vstd::string::StringExecFns>::from_str("Environment key not found: ");
                m.append( k.as_str());
                m
            },
            Error::Parse(v) => {
                let mut m = <String as vstd::string::StringExecFns>::from_str(
                    "Failed to parse environment value: ",
                );
                m.append( v.as_str());
                m
            },
        }
    }
}

} // verus!
