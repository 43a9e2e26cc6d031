//! Environment snapshots and the credentials read from them.

use vstd::prelude::*;
use vstd::slice::slice_subrange;

use crate::error;
use crate::error::{ClassifiedError, ErrorKind};
use crate::text;
use crate::transport;

verus! {

/// A snapshot of environment variables.
pub struct Environment {
    pub entries: Vec<(String, String)>,
}

/// The value of the first entry named `name` at or behind `from`.
pub open spec fn entry(entries: Seq<(Seq<char>, Seq<char>)>, name: Seq<char>, from: int) -> Option<
    Seq<char>,
>
    decreases entries.len() - from,
{
    if from < 0 || from >= entries.len() {
        None
    } else if entries[from].0 == name {
        Some(entries[from].1)
    } else {
        entry(entries, name, from + 1)
    }
}

/// The value of the first entry named `name`.
pub fn lookup<'a>(entries: &'a Vec<(String, String)>, name: &str) -> (r: Option<&'a str>)
    ensures
        match r {
            Some(value) => entry(entries.deep_view(), name@, 0) == Some(value@),
            None => entry(entries.deep_view(), name@, 0) is None,
        },
{
    let ghost all = entries.deep_view();
    let mut i: usize = 0;
    while i < entries.len()
        invariant
            all == entries.deep_view(),
            i <= entries@.len(),
            entry(all, name@, 0) == entry(all, name@, i as int),
        decreases entries@.len() - i,
    {
        assert(all[i as int] == (entries@[i as int].0@, entries@[i as int].1@));
        if text::same_text(entries[i].0.as_str(), name) {
            return Some(entries[i].1.as_str());
        }
        i += 1;
    }
    None
}

impl Environment {
    /// The value of a variable.
    pub open spec fn value_of(self, name: Seq<char>) -> Option<Seq<char>> {
        entry(self.entries.deep_view(), name, 0)
    }

    /// The value of a variable.
    pub fn get(&self, name: &str) -> (r: Option<&str>)
        ensures
            match r {
                Some(value) => self.value_of(name@) == Some(value@),
                None => self.value_of(name@) is None,
            },
    {
        lookup(&self.entries, name)
    }

    /// The cleaned value of a variable.
    pub open spec fn setting(self, name: Seq<char>) -> Option<Seq<char>> {
        match self.value_of(name) {
            Some(value) => cleaned_setting(value),
            None => None,
        }
    }

    /// The cleaned value of a variable.
    pub fn get_setting(&self, name: &str) -> (r: Option<String>)
        ensures
            r.deep_view() == self.setting(name@),
    {
        match self.get(name) {
            Some(value) => clean_setting(value),
            None => None,
        }
    }
}

/// Whether a text is enclosed in a pair of equal quotes.
pub open spec fn quoted(s: Seq<char>) -> bool {
    s.len() >= 2 && ((s[0] == '"' && s.last() == '"') || (s[0] == '\'' && s.last() == '\''))
}

/// A text without one pair of enclosing quotes.
pub open spec fn unquoted(s: Seq<char>) -> Seq<char> {
    if quoted(s) {
        s.subrange(1, s.len() - 1)
    } else {
        s
    }
}

/// A setting without white space and one pair of enclosing quotes; `None` where
/// nothing is left.
pub open spec fn cleaned_setting(raw: Seq<char>) -> Option<Seq<char>> {
    let plain = text::trimmed(raw);
    let value = if quoted(plain) {
        text::trimmed(unquoted(plain))
    } else {
        plain
    };
    if value.len() > 0 {
        Some(value)
    } else {
        None
    }
}

/// Drops one pair of enclosing quotes.
pub fn unquote(s: &[char]) -> (r: &[char])
    ensures
        r@ == unquoted(s@),
{
    let n: usize = s.len();
    if n >= 2 && ((s[0] == '"' && s[n - 1] == '"') || (s[0] == '\'' && s[n - 1] == '\'')) {
        slice_subrange(s, 1, n - 1)
    } else {
        s
    }
}

/// Drops white space and one pair of enclosing quotes; `None` where nothing is
/// left.
pub fn clean_setting(raw: &str) -> (r: Option<String>)
    ensures
        r.deep_view() == cleaned_setting(raw@),
{
    let chars = text::chars_of(raw);
    let plain = text::trim(chars.as_slice());
    let n: usize = plain.len();
    let value = if n >= 2 && ((plain[0] == '"' && plain[n - 1] == '"') || (plain[0] == '\''
        && plain[n - 1] == '\'')) {
        text::trim(unquote(plain))
    } else {
        plain
    };
    if value.len() > 0 {
        Some(text::text_of(value))
    } else {
        None
    }
}

/// An API key that can be sent as a secret.
pub struct ApiKeyCredential {
    pub key: String,
}

/// The first cleaned value among the variables `names` at or behind `from`.
pub open spec fn first_setting(environment: Environment, names: Seq<Seq<char>>, from: int) -> Option<
    Seq<char>,
>
    decreases names.len() - from,
{
    if from < 0 || from >= names.len() {
        None
    } else {
        match environment.setting(names[from]) {
            Some(value) => Some(value),
            None => first_setting(environment, names, from + 1),
        }
    }
}

/// The first cleaned value among the variables, tried in order.
pub fn first_clean_setting(environment: &Environment, names: &Vec<&str>) -> (r: Option<String>)
    ensures
        r.deep_view() == first_setting(*environment, names.deep_view(), 0),
{
    let ghost all = names.deep_view();
    let mut i: usize = 0;
    while i < names.len()
        invariant
            all == names.deep_view(),
            i <= names@.len(),
            first_setting(*environment, all, 0) == first_setting(*environment, all, i as int),
        decreases names@.len() - i,
    {
        assert(all[i as int] == names@[i as int]@);
        let found = environment.get_setting(names[i]);
        if found.is_some() {
            return found;
        }
        i += 1;
    }
    None
}

/// The first cleaned value that can be a secret among the variables `names` at or
/// behind `from`.
pub open spec fn first_key(environment: Environment, names: Seq<Seq<char>>, from: int) -> Option<
    Seq<char>,
>
    decreases names.len() - from,
{
    if from < 0 || from >= names.len() {
        None
    } else {
        match environment.setting(names[from]) {
            Some(key) => if transport::secret_ok(key) {
                Some(key)
            } else {
                first_key(environment, names, from + 1)
            },
            None => first_key(environment, names, from + 1),
        }
    }
}

/// The key that an environment selects: the first cleaned value that can be a
/// secret.
pub open spec fn selected_key(environment: Environment, names: Seq<Seq<char>>) -> Option<Seq<char>> {
    first_key(environment, names, 0)
}

/// Whether a result is the credential that an environment selects.
pub open spec fn is_selected_key(
    r: Result<ApiKeyCredential, ClassifiedError>,
    environment: Environment,
    names: Seq<Seq<char>>,
) -> bool {
    match r {
        Ok(credential) => selected_key(environment, names) == Some(credential.key@),
        Err(e) => selected_key(environment, names) is None && e == error::plain(
            ErrorKind::MissingCredential,
        ),
    }
}

impl ApiKeyCredential {
    /// Selects the first usable key among the variables, tried in order.
    pub fn resolve(environment: &Environment, names: &Vec<&str>) -> (r: Result<
        ApiKeyCredential,
        ClassifiedError,
    >)
        ensures
            is_selected_key(r, *environment, names.deep_view()),
    {
        let ghost all = names.deep_view();
        let mut i: usize = 0;
        while i < names.len()
            invariant
                all == names.deep_view(),
                i <= names@.len(),
                selected_key(*environment, all) == first_key(*environment, all, i as int),
            decreases names@.len() - i,
        {
            assert(all[i as int] == names@[i as int]@);
            if let Some(key) = environment.get_setting(names[i]) {
                if let Ok(secret) = transport::SecretValue::new(key) {
                    return Ok(ApiKeyCredential { key: secret.value });
                }
            }
            i += 1;
        }
        Err(ClassifiedError::new(ErrorKind::MissingCredential))
    }
}

/// A variable whose value cannot be a secret does not hide a usable key behind
/// it: a key is found exactly where some variable holds one.
pub proof fn law_some_usable_key_is_found(environment: Environment, names: Seq<Seq<char>>)
    ensures
        selected_key(environment, names) is Some <==> exists|i: int|
            0 <= i < names.len() && (environment.setting(#[trigger] names[i]) matches Some(key)
                && transport::secret_ok(key)),
{
    lemma_first_key(environment, names, 0);
}

proof fn lemma_first_key(environment: Environment, names: Seq<Seq<char>>, from: int)
    requires
        0 <= from <= names.len(),
    ensures
        first_key(environment, names, from) is Some <==> exists|i: int|
            from <= i < names.len() && (environment.setting(#[trigger] names[i]) matches Some(key)
                && transport::secret_ok(key)),
    decreases names.len() - from,
{
    if from < names.len() {
        lemma_first_key(environment, names, from + 1);
        let here = environment.setting(names[from]);
        if !(here matches Some(key) && transport::secret_ok(key)) && first_key(
            environment,
            names,
            from,
        ) is None {
            assert(forall|i: int|
                from + 1 <= i < names.len() ==> !(environment.setting(
                    #[trigger] names[i],
                ) matches Some(key) && transport::secret_ok(key)));
        }
    }
}

/// A cleaned setting is not empty and has no white space around it. Without quotes
/// it is the setting without the white space around it.
pub proof fn law_cleaned_settings_are_bare(raw: Seq<char>)
    ensures
        cleaned_setting(raw) matches Some(value) ==> {
            &&& value.len() > 0
            &&& !text::whitespace(value[0])
            &&& !text::whitespace(value.last())
        },
        !quoted(text::trimmed(raw)) ==> cleaned_setting(raw) == (if text::trimmed(raw).len() > 0 {
            Some(text::trimmed(raw))
        } else {
            None
        }),
{
    text::law_trimming_cuts_white_space(raw);
    text::law_trimming_cuts_white_space(unquoted(text::trimmed(raw)));
}

/// Quotes of one kind around a setting do not belong to it.
pub proof fn law_quotes_do_not_count(raw: Seq<char>, inner: Seq<char>, quote: char)
    requires
        quote == '"' || quote == '\'',
        text::trimmed(raw) == seq![quote] + inner + seq![quote],
    ensures
        cleaned_setting(raw) == (if text::trimmed(inner).len() > 0 {
            Some(text::trimmed(inner))
        } else {
            None
        }),
{
    let plain = text::trimmed(raw);
    assert(plain[0] == quote && plain.last() == quote);
    assert(unquoted(plain) =~= inner);
}

/// The first usable key in the order of the names is selected.
pub proof fn law_first_usable_key_wins(environment: Environment, names: Seq<Seq<char>>, i: int)
    requires
        0 <= i < names.len(),
        environment.setting(names[i]) matches Some(key) && transport::secret_ok(key),
        forall|j: int|
            0 <= j < i ==> !(environment.setting(#[trigger] names[j]) matches Some(key)
                && transport::secret_ok(key)),
    ensures
        selected_key(environment, names) == environment.setting(names[i]),
{
    lemma_first_key_skip(environment, names, 0, i);
}

proof fn lemma_first_key_skip(environment: Environment, names: Seq<Seq<char>>, from: int, to: int)
    requires
        0 <= from <= to <= names.len(),
        forall|j: int|
            from <= j < to ==> !(environment.setting(#[trigger] names[j]) matches Some(key)
                && transport::secret_ok(key)),
    ensures
        first_key(environment, names, from) == first_key(environment, names, to),
    decreases to - from,
{
    if from < to {
        assert(!(environment.setting(names[from]) matches Some(key) && transport::secret_ok(key)));
        lemma_first_key_skip(environment, names, from + 1, to);
    }
}

} // verus!
