//! The environment variables of the process, and the values that settings take from
//! them.

use vstd::prelude::*;

use crate::text::{parse_unsigned, push_decimal, same_text, trimmed};

verus! {

/// The upper case of a text that is not all ASCII, as Unicode maps it.
pub uninterp spec fn unicode_uppercase(s: Seq<char>) -> Seq<char>;

/// The lower case of a text that is not all ASCII, as Unicode maps it.
pub uninterp spec fn unicode_lowercase(s: Seq<char>) -> Seq<char>;

/// Whether all of `s` is ASCII.
pub open spec fn all_ascii(s: Seq<char>) -> bool {
    forall|i: int| 0 <= i < s.len() ==> (#[trigger] s[i]) as u32 <= 127
}

/// An ASCII text with its letters a to z in upper case.
pub open spec fn ascii_uppercase(s: Seq<char>) -> Seq<char> {
    s.map_values(
        |c: char|
            if 'a' <= c <= 'z' {
                (c as u32 - 32) as char
            } else {
                c
            },
    )
}

/// An ASCII text with its letters A to Z in lower case.
pub open spec fn ascii_lowercase(s: Seq<char>) -> Seq<char> {
    s.map_values(
        |c: char|
            if 'A' <= c <= 'Z' {
                (c as u32 + 32) as char
            } else {
                c
            },
    )
}

/// The upper case of a text.
pub open spec fn uppercase(s: Seq<char>) -> Seq<char> {
    if all_ascii(s) {
        ascii_uppercase(s)
    } else {
        unicode_uppercase(s)
    }
}

/// The lower case of a text.
pub open spec fn lowercase(s: Seq<char>) -> Seq<char> {
    if all_ascii(s) {
        ascii_lowercase(s)
    } else {
        unicode_lowercase(s)
    }
}

/// `str::to_uppercase` of std: the upper case of the text by Unicode's mapping,
/// which changes an ASCII text only in its letters a to z, one for one.
pub assume_specification[ str::to_uppercase ](s: &str) -> (r: String)
    ensures
        all_ascii(s@) ==> r@ == ascii_uppercase(s@),
        !all_ascii(s@) ==> r@ == unicode_uppercase(s@),
;

/// `str::to_lowercase` of std: the lower case of the text by Unicode's mapping,
/// which changes an ASCII text only in its letters A to Z, one for one.
pub assume_specification[ str::to_lowercase ](s: &str) -> (r: String)
    ensures
        all_ascii(s@) ==> r@ == ascii_lowercase(s@),
        !all_ascii(s@) ==> r@ == unicode_lowercase(s@),
;

/// The environment variables of the process, as pairs of name and value. Where a
/// name occurs more than once the first pair counts.
pub struct Environment {
    pub vars: Vec<(String, String)>,
}

impl View for Environment {
    type V = Seq<(Seq<char>, Seq<char>)>;

    open spec fn view(&self) -> Seq<(Seq<char>, Seq<char>)> {
        self.vars.deep_view()
    }
}

/// The value of the variable `name`, if it is set.
pub open spec fn lookup(vars: Seq<(Seq<char>, Seq<char>)>, name: Seq<char>) -> Option<Seq<char>>
    decreases vars.len(),
{
    if vars.len() == 0 {
        None
    } else if vars[0].0 == name {
        Some(vars[0].1)
    } else {
        lookup(vars.drop_first(), name)
    }
}

impl Environment {
    /// The value of the variable `name`, if it is set.
    pub fn get(&self, name: &str) -> (value: Option<String>)
        ensures
            value.deep_view() == lookup(self@, name@),
    {
        let mut i: usize = 0;
        assert(self@.skip(0) == self@);
        while i < self.vars.len()
            invariant
                i <= self.vars@.len(),
                lookup(self@, name@) == lookup(self@.skip(i as int), name@),
            decreases self.vars@.len() - i,
        {
            assert(self@.skip(i as int)[0] == (self.vars@[i as int].0@, self.vars@[i as int].1@));
            if same_text(self.vars[i].0.as_str(), name) {
                return Some(self.vars[i].1.clone());
            }
            assert(self@.skip(i as int).drop_first() == self@.skip(i + 1));
            i = i + 1;
        }
        None
    }
}

/// A variable has the value of the first pair with its name, and is unset where there
/// is no such pair.
pub proof fn law_variables_are_found_by_name(
    vars: Seq<(Seq<char>, Seq<char>)>,
    name: Seq<char>,
    i: int,
)
    requires
        0 <= i <= vars.len(),
        forall|j: int| 0 <= j < i ==> (#[trigger] vars[j]).0 != name,
        i < vars.len() ==> vars[i].0 == name,
    ensures
        lookup(vars, name) == (if i < vars.len() {
            Some(vars[i].1)
        } else {
            None
        }),
    decreases vars.len(),
{
    if vars.len() > 0 && i > 0 {
        assert(vars[0].0 != name);
        let rest = vars.drop_first();
        assert forall|j: int| 0 <= j < i - 1 implies (#[trigger] rest[j]).0 != name by {
            assert(rest[j] == vars[j + 1]);
        }
        law_variables_are_found_by_name(rest, name, i - 1);
    }
}

/// Why the environment holds no usable settings.
#[derive(Clone, Debug)]
pub enum ConfigError {
    NoContactPoints,
    UnsupportedConsistency { level: String },
    NotBoolean { name: &'static str },
    TlsUnsupported,
    NoOperationWeight,
    NotUnsigned { name: &'static str },
    Range { name: &'static str, min: u64, max: u64, value: u64 },
    NotSocketAddress,
}

/// What a `ConfigError` says.
pub enum ConfigFault {
    NoContactPoints,
    UnsupportedConsistency { level: Seq<char> },
    NotBoolean { name: Seq<char> },
    TlsUnsupported,
    NoOperationWeight,
    NotUnsigned { name: Seq<char> },
    Range { name: Seq<char>, min: nat, max: nat, value: nat },
    NotSocketAddress,
}

impl View for ConfigError {
    type V = ConfigFault;

    open spec fn view(&self) -> ConfigFault {
        match self {
            ConfigError::NoContactPoints => ConfigFault::NoContactPoints,
            ConfigError::UnsupportedConsistency { level } => ConfigFault::UnsupportedConsistency {
                level: level@,
            },
            ConfigError::NotBoolean { name } => ConfigFault::NotBoolean { name: name@ },
            ConfigError::TlsUnsupported => ConfigFault::TlsUnsupported,
            ConfigError::NoOperationWeight => ConfigFault::NoOperationWeight,
            ConfigError::NotUnsigned { name } => ConfigFault::NotUnsigned { name: name@ },
            ConfigError::Range { name, min, max, value } => ConfigFault::Range {
                name: name@,
                min: *min as nat,
                max: *max as nat,
                value: *value as nat,
            },
            ConfigError::NotSocketAddress => ConfigFault::NotSocketAddress,
        }
    }
}

/// The message of a fault.
pub open spec fn fault_message(fault: ConfigFault) -> Seq<char> {
    match fault {
        ConfigFault::NoContactPoints =>
            "CASSANDRA_CONTACT_POINTS must contain at least one host:port"@,
        ConfigFault::UnsupportedConsistency { level } => "unsupported CASSANDRA_CONSISTENCY="@
            + level + "; use ONE, LOCAL_ONE, QUORUM, or LOCAL_QUORUM"@,
        ConfigFault::NotBoolean { name } => name + " must be true or false"@,
        ConfigFault::TlsUnsupported =>
            "CASSANDRA_TLS_ENABLED=true needs CA/cert settings; this mini-app only supports plain TCP"@,
        ConfigFault::NoOperationWeight =>
            "APP_READ_RATIO + APP_WRITE_RATIO must be greater than 0"@,
        ConfigFault::NotUnsigned { name } => name + " must be an unsigned integer"@,
        ConfigFault::Range { name, min, max, value } => name + " must be between "@
            + crate::text::decimal(min) + " and "@ + crate::text::decimal(max) + ", got "@
            + crate::text::decimal(value),
        ConfigFault::NotSocketAddress => "APP_METRICS_ADDR must be a socket address"@,
    }
}

impl ConfigError {
    /// The message of the error.
    pub fn message(&self) -> (text: String)
        ensures
            text@ == fault_message(self@),
    {
        match self {
            ConfigError::NoContactPoints =>
                "CASSANDRA_CONTACT_POINTS must contain at least one host:port".to_owned(),
            ConfigError::UnsupportedConsistency { level } => {
                let mut text: String = "unsupported CASSANDRA_CONSISTENCY=".to_owned();
                text.append(level.as_str());
                text.append("; use ONE, LOCAL_ONE, QUORUM, or LOCAL_QUORUM");
                text
            },
            ConfigError::NotBoolean { name } => (*name).to_owned().concat(" must be true or false"),
            ConfigError::TlsUnsupported =>
                "CASSANDRA_TLS_ENABLED=true needs CA/cert settings; this mini-app only supports plain TCP".to_owned(),
            ConfigError::NoOperationWeight =>
                "APP_READ_RATIO + APP_WRITE_RATIO must be greater than 0".to_owned(),
            ConfigError::NotUnsigned { name } => (*name).to_owned().concat(
                " must be an unsigned integer",
            ),
            ConfigError::Range { name, min, max, value } => {
                let mut text: String = (*name).to_owned().concat(" must be between ");
                push_decimal(&mut text, *min);
                text.append(" and ");
                push_decimal(&mut text, *max);
                text.append(", got ");
                push_decimal(&mut text, *value);
                text
            },
            ConfigError::NotSocketAddress => "APP_METRICS_ADDR must be a socket address".to_owned(),
        }
    }
}

/// A message about a setting starts with its name; one about a range goes on with the
/// bounds and the value, in decimal.
pub proof fn law_messages_name_the_setting(error: ConfigError, text: String)
    requires
        call_ensures(ConfigError::message, (&error,), text),
    ensures
        match error {
            ConfigError::UnsupportedConsistency { level } => text@
                == "unsupported CASSANDRA_CONSISTENCY="@ + level@
                + "; use ONE, LOCAL_ONE, QUORUM, or LOCAL_QUORUM"@,
            ConfigError::NotBoolean { name } => text@ == name@ + " must be true or false"@,
            ConfigError::NotUnsigned { name } => text@ == name@
                + " must be an unsigned integer"@,
            ConfigError::Range { name, min, max, value } => text@ == name@ + " must be between "@
                + crate::text::decimal(min as nat) + " and "@ + crate::text::decimal(max as nat)
                + ", got "@ + crate::text::decimal(value as nat),
            _ => text@ == fault_message(error@),
        },
{
}

/// The text of `name`, or `default` where it is unset.
pub open spec fn text_setting(
    vars: Seq<(Seq<char>, Seq<char>)>,
    name: Seq<char>,
    default: Seq<char>,
) -> Seq<char> {
    match lookup(vars, name) {
        Some(value) => value,
        None => default,
    }
}

/// The text of `name` without white space around it, unless that leaves nothing.
pub open spec fn optional_setting(
    vars: Seq<(Seq<char>, Seq<char>)>,
    name: Seq<char>,
) -> Option<Seq<char>> {
    match lookup(vars, name) {
        Some(value) if crate::text::trim(value).len() > 0 => Some(crate::text::trim(value)),
        _ => None,
    }
}

/// The words for true and false.
pub open spec fn truth(word: Seq<char>) -> Option<bool> {
    if word == "true"@ || word == "1"@ || word == "yes"@ || word == "y"@ {
        Some(true)
    } else if word == "false"@ || word == "0"@ || word == "no"@ || word == "n"@ {
        Some(false)
    } else {
        None
    }
}

/// The truth value of `name`, written in any case, or `default` where it is unset.
pub open spec fn bool_setting(
    vars: Seq<(Seq<char>, Seq<char>)>,
    name: Seq<char>,
    default: bool,
) -> Option<bool> {
    match lookup(vars, name) {
        Some(value) => truth(lowercase(value)),
        None => Some(default),
    }
}

/// The number of `name`, up to `max`, or `default` where it is unset.
pub open spec fn number_setting(
    vars: Seq<(Seq<char>, Seq<char>)>,
    name: Seq<char>,
    default: nat,
    max: nat,
) -> Option<nat> {
    match lookup(vars, name) {
        Some(value) => crate::text::unsigned(value, max),
        None => Some(default),
    }
}

/// The number of `name`, or that of `fallback` where `name` is unset, or `default`
/// where both are.
pub open spec fn fallback_setting(
    vars: Seq<(Seq<char>, Seq<char>)>,
    name: Seq<char>,
    fallback: Seq<char>,
    default: nat,
    max: nat,
) -> Option<nat> {
    match lookup(vars, name) {
        Some(value) => crate::text::unsigned(value, max),
        None => number_setting(vars, fallback, default, max),
    }
}

/// The variable that `fallback_setting` reads.
pub open spec fn fallback_name(
    vars: Seq<(Seq<char>, Seq<char>)>,
    name: Seq<char>,
    fallback: Seq<char>,
) -> Seq<char> {
    if lookup(vars, name) is Some {
        name
    } else {
        fallback
    }
}

/// The value of `name`, or `default` where it is unset.
pub fn env_string(env: &Environment, name: &str, default: &str) -> (value: String)
    ensures
        value@ == text_setting(env@, name@, default@),
{
    match env.get(name) {
        Some(value) => value,
        None => default.to_owned(),
    }
}

/// The value of `name` without white space around it; none where it is unset or
/// blank.
pub fn env_optional(env: &Environment, name: &str) -> (value: Option<String>)
    ensures
        value.deep_view() == optional_setting(env@, name@),
{
    match env.get(name) {
        Some(value) => {
            let value: String = trimmed(value.as_str());
            if value.as_str().is_empty() {
                None
            } else {
                Some(value)
            }
        },
        None => None,
    }
}

/// The truth value that a word in lower case stands for.
pub fn truth_value(word: &str) -> (value: Option<bool>)
    ensures
        value == truth(word@),
{
    if same_text(word, "true") || same_text(word, "1") || same_text(word, "yes") || same_text(
        word,
        "y",
    ) {
        Some(true)
    } else if same_text(word, "false") || same_text(word, "0") || same_text(word, "no")
        || same_text(word, "n") {
        Some(false)
    } else {
        None
    }
}

/// The truth value of `name`, written in any case, or `default` where it is unset.
pub fn env_bool(env: &Environment, name: &'static str, default: bool) -> (value: Result<
    bool,
    ConfigError,
>)
    ensures
        match value {
            Ok(value) => bool_setting(env@, name@, default) == Some(value),
            Err(error) => bool_setting(env@, name@, default) is None && error@
                == (ConfigFault::NotBoolean { name: name@ }),
        },
{
    match env.get(name) {
        Some(value) => match truth_value(value.as_str().to_lowercase().as_str()) {
            Some(value) => Ok(value),
            None => Err(ConfigError::NotBoolean { name }),
        },
        None => Ok(default),
    }
}

/// The number of `name`, or `default` where it is unset.
pub fn env_u64(env: &Environment, name: &'static str, default: u64) -> (value: Result<
    u64,
    ConfigError,
>)
    ensures
        match value {
            Ok(value) => number_setting(env@, name@, default as nat, u64::MAX as nat) == Some(
                value as nat,
            ),
            Err(error) => number_setting(env@, name@, default as nat, u64::MAX as nat) is None
                && error@ == (ConfigFault::NotUnsigned { name: name@ }),
        },
{
    match env.get(name) {
        Some(value) => match parse_unsigned(value.as_str(), u64::MAX) {
            Some(value) => Ok(value),
            None => Err(ConfigError::NotUnsigned { name }),
        },
        None => Ok(default),
    }
}

/// The number of `name`, or that of `fallback_name` where `name` is unset, or
/// `default` where both are.
pub fn env_u64_with_fallback(
    env: &Environment,
    name: &'static str,
    fallback_name: &'static str,
    default: u64,
) -> (value: Result<u64, ConfigError>)
    ensures
        match value {
            Ok(value) => fallback_setting(
                env@,
                name@,
                fallback_name@,
                default as nat,
                u64::MAX as nat,
            ) == Some(value as nat),
            Err(error) => {
                &&& fallback_setting(
                    env@,
                    name@,
                    fallback_name@,
                    default as nat,
                    u64::MAX as nat,
                ) is None
                &&& error@ == (ConfigFault::NotUnsigned {
                    name: crate::environment::fallback_name(env@, name@, fallback_name@),
                })
            },
        },
{
    match env.get(name) {
        Some(value) => match parse_unsigned(value.as_str(), u64::MAX) {
            Some(value) => Ok(value),
            None => Err(ConfigError::NotUnsigned { name }),
        },
        None => env_u64(env, fallback_name, default),
    }
}

/// The number of `name`, or `default` where it is unset.
pub fn env_u32(env: &Environment, name: &'static str, default: u32) -> (value: Result<
    u32,
    ConfigError,
>)
    ensures
        match value {
            Ok(value) => number_setting(env@, name@, default as nat, u32::MAX as nat) == Some(
                value as nat,
            ),
            Err(error) => number_setting(env@, name@, default as nat, u32::MAX as nat) is None
                && error@ == (ConfigFault::NotUnsigned { name: name@ }),
        },
{
    match env.get(name) {
        Some(value) => match parse_unsigned(value.as_str(), u32::MAX as u64) {
            Some(value) => Ok(value as u32),
            None => Err(ConfigError::NotUnsigned { name }),
        },
        None => Ok(default),
    }
}

/// The number of `name`, or `default` where it is unset.
pub fn env_usize(env: &Environment, name: &'static str, default: usize) -> (value: Result<
    usize,
    ConfigError,
>)
    ensures
        match value {
            Ok(value) => number_setting(env@, name@, default as nat, usize::MAX as nat) == Some(
                value as nat,
            ),
            Err(error) => number_setting(env@, name@, default as nat, usize::MAX as nat) is None
                && error@ == (ConfigFault::NotUnsigned { name: name@ }),
        },
{
    match env.get(name) {
        Some(value) => match parse_unsigned(value.as_str(), usize::MAX as u64) {
            Some(value) => Ok(value as usize),
            None => Err(ConfigError::NotUnsigned { name }),
        },
        None => Ok(default),
    }
}

/// Whether an ASCII text is written in upper or in lower case makes no difference to
/// its upper case or its lower case.
pub proof fn law_case_is_ignored(s: Seq<char>)
    requires
        all_ascii(s),
    ensures
        lowercase(uppercase(s)) == lowercase(s),
        uppercase(lowercase(s)) == uppercase(s),
{
    assert forall|i: int| 0 <= i < s.len() implies (#[trigger] ascii_uppercase(s)[i]) as u32
        <= 127 by {
        assert(s[i] as u32 <= 127);
    }
    assert forall|i: int| 0 <= i < s.len() implies (#[trigger] ascii_lowercase(s)[i]) as u32
        <= 127 by {
        assert(s[i] as u32 <= 127);
    }
    assert(ascii_lowercase(ascii_uppercase(s)) == ascii_lowercase(s));
    assert(ascii_uppercase(ascii_lowercase(s)) == ascii_uppercase(s));
}

/// Whether two texts are the same but for the case of their ASCII letters.
pub open spec fn same_but_for_case(a: Seq<char>, b: Seq<char>) -> bool {
    &&& a.len() == b.len()
    &&& forall|i: int|
        0 <= i < a.len() ==> {
            ||| #[trigger] a[i] == b[i]
            ||| 'a' <= a[i] <= 'z' && a[i] as int - 32 == b[i] as int
            ||| 'A' <= a[i] <= 'Z' && a[i] as int + 32 == b[i] as int
        }
}

proof fn lemma_same_but_for_case(s: Seq<char>, word: Seq<char>)
    ensures
        (forall|i: int| 0 <= i < word.len() ==> !('A' <= #[trigger] word[i] <= 'Z')) ==> (
        ascii_lowercase(s) == word <==> same_but_for_case(s, word)),
        (forall|i: int| 0 <= i < word.len() ==> !('a' <= #[trigger] word[i] <= 'z')) ==> (
        ascii_uppercase(s) == word <==> same_but_for_case(s, word)),
{
    let lower = ascii_lowercase(s);
    let upper = ascii_uppercase(s);
    if forall|i: int| 0 <= i < word.len() ==> !('A' <= #[trigger] word[i] <= 'Z') {
        if same_but_for_case(s, word) {
            assert forall|i: int| 0 <= i < s.len() implies lower[i] == word[i] by {
                assert(s[i] == s[i]);
                assert(!('A' <= word[i] <= 'Z'));
            }
            assert(lower =~= word);
        }
        if lower == word {
            assert(lower.len() == s.len());
            assert forall|i: int| 0 <= i < s.len() implies ({
                ||| #[trigger] s[i] == word[i]
                ||| 'a' <= s[i] <= 'z' && s[i] as int - 32 == word[i] as int
                ||| 'A' <= s[i] <= 'Z' && s[i] as int + 32 == word[i] as int
            }) by {
                assert(lower[i] == word[i]);
            }
        }
    }
    if forall|i: int| 0 <= i < word.len() ==> !('a' <= #[trigger] word[i] <= 'z') {
        if same_but_for_case(s, word) {
            assert forall|i: int| 0 <= i < s.len() implies upper[i] == word[i] by {
                assert(s[i] == s[i]);
                assert(!('a' <= word[i] <= 'z'));
            }
            assert(upper =~= word);
        }
        if upper == word {
            assert(upper.len() == s.len());
            assert forall|i: int| 0 <= i < s.len() implies ({
                ||| #[trigger] s[i] == word[i]
                ||| 'a' <= s[i] <= 'z' && s[i] as int - 32 == word[i] as int
                ||| 'A' <= s[i] <= 'Z' && s[i] as int + 32 == word[i] as int
            }) by {
                assert(upper[i] == word[i]);
            }
        }
    }
}

/// Whether an ASCII text is one of the words for true, in any case.
pub open spec fn says_true(value: Seq<char>) -> bool {
    same_but_for_case(value, "true"@) || same_but_for_case(value, "1"@) || same_but_for_case(
        value,
        "yes"@,
    ) || same_but_for_case(value, "y"@)
}

/// Whether an ASCII text is one of the words for false, in any case.
pub open spec fn says_false(value: Seq<char>) -> bool {
    same_but_for_case(value, "false"@) || same_but_for_case(value, "0"@) || same_but_for_case(
        value,
        "no"@,
    ) || same_but_for_case(value, "n"@)
}

/// A truth value that is set in ASCII is true or false where the text is one of the
/// words for it in any case, and refused where it is none; one that is unset is the
/// default.
pub proof fn law_truth_values(
    vars: Seq<(Seq<char>, Seq<char>)>,
    name: Seq<char>,
    default: bool,
)
    ensures
        match lookup(vars, name) {
            Some(value) => all_ascii(value) ==> {
                &&& bool_setting(vars, name, default) == Some(true) <==> says_true(value)
                &&& bool_setting(vars, name, default) == Some(false) <==> says_false(value)
            },
            None => bool_setting(vars, name, default) == Some(default),
        },
{
    if let Some(value) = lookup(vars, name) {
        lemma_same_but_for_case(value, "true"@);
        lemma_same_but_for_case(value, "1"@);
        lemma_same_but_for_case(value, "yes"@);
        lemma_same_but_for_case(value, "y"@);
        lemma_same_but_for_case(value, "false"@);
        lemma_same_but_for_case(value, "0"@);
        lemma_same_but_for_case(value, "no"@);
        lemma_same_but_for_case(value, "n"@);
        reveal_strlit("true");
        reveal_strlit("1");
        reveal_strlit("yes");
        reveal_strlit("y");
        reveal_strlit("false");
        reveal_strlit("0");
        reveal_strlit("no");
        reveal_strlit("n");
        let word = ascii_lowercase(value);
        assert("true"@.len() == 4 && "yes"@.len() == 3 && "false"@.len() == 5 && "no"@.len() == 2);
        assert("1"@[0] == '1' && "0"@[0] == '0' && "y"@[0] == 'y' && "n"@[0] == 'n');
    }
}

/// The upper case of an ASCII text is a word in upper case exactly where the text is
/// that word in any case.
pub proof fn law_upper_case(s: Seq<char>, word: Seq<char>)
    requires
        all_ascii(s),
        forall|i: int| 0 <= i < word.len() ==> !('a' <= #[trigger] word[i] <= 'z'),
    ensures
        uppercase(s) == word <==> same_but_for_case(s, word),
{
    lemma_same_but_for_case(s, word);
}

} // verus!
