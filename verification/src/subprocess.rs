//! Bounded, shell-free subprocess requests and the decisions of one run.
//!
//! Paths, arguments and environment entries are their platform bytes.

use vstd::prelude::*;

use crate::instant::Duration;

verus! {

pub const MAX_EXECUTABLE_BYTES: usize = 4 * 1024;

pub const MAX_ARGUMENTS: usize = 128;

pub const MAX_ARGUMENT_BYTES: usize = 16 * 1024;

pub const MAX_TOTAL_ARGUMENT_BYTES: usize = 64 * 1024;

pub const MAX_ENVIRONMENT_CHANGES: usize = 64;

pub const MAX_ENVIRONMENT_NAME_BYTES: usize = 256;

pub const MAX_ENVIRONMENT_VALUE_BYTES: usize = 64 * 1024;

pub const MAX_TOTAL_ENVIRONMENT_BYTES: usize = 256 * 1024;

pub const MAX_OUTPUT_BYTES: usize = 1024 * 1024;

pub const MAX_STDERR_CLASSIFIER_RULES: usize = 16;

pub const MAX_STDERR_NEEDLE_BYTES: usize = 256;

pub const MAX_TOTAL_STDERR_NEEDLE_BYTES: usize = 2 * 1024;

/// Longest run: five minutes.
pub const MAX_TIMEOUT_SECONDS: u64 = 300;

/// Stable subprocess failures.
#[derive(Debug, Clone, Copy, PartialEq, Eq, Structural)]
pub enum SubprocessError {
    InvalidConfiguration,
    Spawn,
    Wait,
    OutputRead,
    Cancelled,
    Timeout,
    StdoutTooLarge,
    StderrTooLarge,
    NonZero { code: Option<i32>, stderr_tag: Option<u8> },
}

/// Captured output of a successful run.
pub struct SubprocessOutput {
    pub stdout: Vec<u8>,
    pub stderr: Vec<u8>,
}

impl SubprocessOutput {
    /// Captured standard output.
    pub fn stdout(&self) -> (r: &[u8])
        ensures
            r@ == self.stdout@,
    {
        self.stdout.as_slice()
    }

    /// Captured standard error.
    pub fn stderr(&self) -> (r: &[u8])
        ensures
            r@ == self.stderr@,
    {
        self.stderr.as_slice()
    }

    /// Gives up everything but standard output.
    pub fn into_stdout(self) -> (r: Vec<u8>)
        ensures
            r == self.stdout,
    {
        self.stdout
    }
}

/// ASCII upper-case letters become lower case; every other byte stays.
pub open spec fn lower_byte(b: u8) -> u8 {
    if 65 <= b <= 90 {
        (b + 32) as u8
    } else {
        b
    }
}

fn to_lower_byte(b: u8) -> (r: u8)
    ensures
        r == lower_byte(b),
{
    if 65 <= b && b <= 90 {
        b + 32
    } else {
        b
    }
}

/// Whether `needle` stands at position `at`, without regard to ASCII case.
pub open spec fn needle_at(hay: Seq<u8>, needle: Seq<u8>, at: int) -> bool {
    &&& 0 <= at
    &&& at + needle.len() <= hay.len()
    &&& forall|i: int|
        0 <= i < needle.len() ==> lower_byte(hay[at + i]) == lower_byte(#[trigger] needle[i])
}

/// Whether `needle` occurs, without regard to ASCII case.
pub open spec fn needle_in(hay: Seq<u8>, needle: Seq<u8>) -> bool {
    exists|at: int| #[trigger] needle_at(hay, needle, at)
}

fn occurs(hay: &[u8], needle: &[u8]) -> (r: bool)
    ensures
        r == needle_in(hay@, needle@),
{
    let length: usize = hay.len();
    if needle.len() > length {
        assert forall|k: int| !#[trigger] needle_at(hay@, needle@, k) by {}
        return false;
    }
    let starts: usize = length - needle.len();
    let mut at: usize = 0;
    loop
        invariant
            length == hay@.len(),
            starts == length - needle@.len(),
            at <= starts,
            forall|k: int| 0 <= k < at ==> !#[trigger] needle_at(hay@, needle@, k),
        decreases starts - at,
    {
        let mut i: usize = 0;
        while i < needle.len() && to_lower_byte(hay[at + i]) == to_lower_byte(needle[i])
            invariant
                length == hay@.len(),
                starts == length - needle@.len(),
                at <= starts,
                i <= needle@.len(),
                forall|j: int|
                    0 <= j < i ==> lower_byte(hay@[at + j]) == lower_byte(#[trigger] needle@[j]),
            decreases needle@.len() - i,
        {
            i += 1;
        }
        if i == needle.len() {
            assert(needle_at(hay@, needle@, at as int));
            return true;
        }
        assert(lower_byte(hay@[at + i]) != lower_byte(needle@[i as int]));
        assert(!needle_at(hay@, needle@, at as int));
        if at == starts {
            assert forall|k: int| !#[trigger] needle_at(hay@, needle@, k) by {}
            return false;
        }
        at += 1;
    }
}

/// One classification rule.
pub struct StderrRule {
    pub tag: u8,
    pub needle: Vec<u8>,
}

/// Tags standard error by the first rule whose text occurs in it.
pub struct StderrClassifier {
    pub rules: Vec<StderrRule>,
}

/// Whether a text can be searched for: bounded, visible ASCII and blanks.
pub open spec fn needle_ok(needle: Seq<u8>) -> bool {
    &&& 1 <= needle.len() <= MAX_STDERR_NEEDLE_BYTES
    &&& forall|i: int| 0 <= i < needle.len() ==> 32 <= #[trigger] needle[i] <= 126
}

/// Total length of the texts of the first `n` rules.
pub open spec fn needles_total(rules: Seq<(u8, Seq<u8>)>, n: int) -> int
    decreases n,
{
    if n <= 0 {
        0
    } else {
        needles_total(rules, n - 1) + rules[n - 1].1.len()
    }
}

/// Whether the rules can form a classifier.
pub open spec fn rules_ok(rules: Seq<(u8, Seq<u8>)>) -> bool {
    &&& rules.len() <= MAX_STDERR_CLASSIFIER_RULES
    &&& forall|i: int| 0 <= i < rules.len() ==> needle_ok((#[trigger] rules[i]).1)
    &&& needles_total(rules, rules.len() as int) <= MAX_TOTAL_STDERR_NEEDLE_BYTES
}

/// Tags and searched bytes of some rules given as texts.
pub open spec fn rule_bytes(rules: Seq<(u8, &str)>) -> Seq<(u8, Seq<u8>)> {
    Seq::new(rules.len(), |i: int| (rules[i].0, vstd::utf8::encode_utf8(rules[i].1@)))
}

/// Tags and searched bytes of a classifier.
pub open spec fn rule_values(rules: Seq<StderrRule>) -> Seq<(u8, Seq<u8>)> {
    Seq::new(rules.len(), |i: int| (rules[i].tag, rules[i].needle@))
}

/// The tag of the first rule at or behind `from` whose text occurs.
pub open spec fn first_tag(rules: Seq<(u8, Seq<u8>)>, stderr: Seq<u8>, from: int) -> Option<u8>
    decreases rules.len() - from,
{
    if from < 0 || from >= rules.len() {
        None
    } else if needle_in(stderr, rules[from].1) {
        Some(rules[from].0)
    } else {
        first_tag(rules, stderr, from + 1)
    }
}

proof fn lemma_needles_total(rules: Seq<(u8, Seq<u8>)>, n: int, m: int)
    requires
        0 <= n <= m <= rules.len(),
    ensures
        needles_total(rules, n) <= needles_total(rules, m),
    decreases m - n,
{
    if n < m {
        lemma_needles_total(rules, n, m - 1);
    }
}

impl StderrClassifier {
    /// Collects bounded rules; texts are compared without regard to ASCII case.
    pub fn ascii_case_insensitive(rules: &Vec<(u8, &str)>) -> (r: Result<
        StderrClassifier,
        SubprocessError,
    >)
        ensures
            match r {
                Ok(classifier) => rules_ok(rule_bytes(rules@)) && rule_values(classifier.rules@)
                    == rule_bytes(rules@),
                Err(e) => !rules_ok(rule_bytes(rules@)) && e
                    == SubprocessError::InvalidConfiguration,
            },
    {
        let ghost all = rule_bytes(rules@);
        let mut collected: Vec<StderrRule> = Vec::new();
        let mut total: usize = 0;
        let mut i: usize = 0;
        while i < rules.len()
            invariant
                all == rule_bytes(rules@),
                i <= rules@.len(),
                i <= MAX_STDERR_CLASSIFIER_RULES,
                collected@.len() == i,
                rule_values(collected@) == all.take(i as int),
                total == needles_total(all, i as int),
                total <= MAX_TOTAL_STDERR_NEEDLE_BYTES,
                forall|j: int| 0 <= j < i ==> needle_ok((#[trigger] all[j]).1),
            decreases rules@.len() - i,
        {
            if i == MAX_STDERR_CLASSIFIER_RULES {
                return Err(SubprocessError::InvalidConfiguration);
            }
            let bytes = rules[i].1.as_bytes();
            assert(all[i as int].1 == bytes@);
            if bytes.len() == 0 || bytes.len() > MAX_STDERR_NEEDLE_BYTES {
                assert(!needle_ok(all[i as int].1));
                return Err(SubprocessError::InvalidConfiguration);
            }
            let mut copy: Vec<u8> = Vec::new();
            let mut k: usize = 0;
            while k < bytes.len()
                invariant
                    all == rule_bytes(rules@),
                    i < rules@.len(),
                    all[i as int].1 == bytes@,
                    k <= bytes@.len(),
                    copy@ == bytes@.take(k as int),
                    forall|j: int| 0 <= j < k ==> 32 <= #[trigger] bytes@[j] <= 126,
                decreases bytes@.len() - k,
            {
                if !(32 <= bytes[k] && bytes[k] <= 126) {
                    assert(!needle_ok(all[i as int].1));
                    return Err(SubprocessError::InvalidConfiguration);
                }
                copy.push(bytes[k]);
                k += 1;
            }
            assert(copy@ =~= bytes@);
            proof {
                lemma_needles_total(all, i as int + 1, all.len() as int);
            }
            total = total + bytes.len();
            if total > MAX_TOTAL_STDERR_NEEDLE_BYTES {
                return Err(SubprocessError::InvalidConfiguration);
            }
            collected.push(StderrRule { tag: rules[i].0, needle: copy });
            i += 1;
            assert(rule_values(collected@) =~= all.take(i as int));
        }
        assert(all.take(i as int) =~= all);
        Ok(StderrClassifier { rules: collected })
    }

    /// The tag of the first rule whose text occurs.
    pub fn classify(&self, stderr: &[u8]) -> (r: Option<u8>)
        ensures
            r == first_tag(rule_values(self.rules@), stderr@, 0),
    {
        let ghost all = rule_values(self.rules@);
        let mut i: usize = 0;
        while i < self.rules.len()
            invariant
                all == rule_values(self.rules@),
                i <= self.rules@.len(),
                first_tag(all, stderr@, 0) == first_tag(all, stderr@, i as int),
            decreases self.rules@.len() - i,
        {
            assert(all[i as int] == (self.rules@[i as int].tag, self.rules@[i as int].needle@));
            if occurs(stderr, self.rules[i].needle.as_slice()) {
                return Some(self.rules[i].tag);
            }
            i += 1;
        }
        None
    }
}

/// Earlier rules win: the tag is that of a rule whose text occurs while no
/// earlier rule's text does; without a tag, no rule's text occurs.
pub proof fn law_first_rule_wins(rules: Seq<(u8, Seq<u8>)>, stderr: Seq<u8>)
    ensures
        match first_tag(rules, stderr, 0) {
            Some(tag) => exists|i: int|
                0 <= i < rules.len() && (#[trigger] rules[i]).0 == tag && needle_in(
                    stderr,
                    rules[i].1,
                ) && forall|j: int| 0 <= j < i ==> !needle_in(stderr, (#[trigger] rules[j]).1),
            None => forall|i: int|
                0 <= i < rules.len() ==> !needle_in(stderr, (#[trigger] rules[i]).1),
        },
{
    lemma_first_tag(rules, stderr, 0);
}

proof fn lemma_first_tag(rules: Seq<(u8, Seq<u8>)>, stderr: Seq<u8>, from: int)
    requires
        0 <= from <= rules.len(),
    ensures
        match first_tag(rules, stderr, from) {
            Some(tag) => exists|i: int|
                from <= i < rules.len() && (#[trigger] rules[i]).0 == tag && needle_in(
                    stderr,
                    rules[i].1,
                ) && forall|j: int| from <= j < i ==> !needle_in(stderr, (#[trigger] rules[j]).1),
            None => forall|i: int|
                from <= i < rules.len() ==> !needle_in(stderr, (#[trigger] rules[i]).1),
        },
    decreases rules.len() - from,
{
    if from < rules.len() {
        if needle_in(stderr, rules[from].1) {
            assert(rules[from].0 == first_tag(rules, stderr, from)->0);
        } else {
            lemma_first_tag(rules, stderr, from + 1);
            if first_tag(rules, stderr, from) is Some {
                let i = choose|i: int|
                    from + 1 <= i < rules.len() && (#[trigger] rules[i]).0 == first_tag(
                        rules,
                        stderr,
                        from,
                    )->0 && needle_in(stderr, rules[i].1) && forall|j: int|
                        from + 1 <= j < i ==> !needle_in(stderr, (#[trigger] rules[j]).1);
                assert(rules[i].0 == first_tag(rules, stderr, from)->0);
            }
        }
    }
}

/// A change of one environment variable: a value, or removal.
pub struct EnvironmentChange {
    pub name: Vec<u8>,
    pub value: Option<Vec<u8>>,
}

impl EnvironmentChange {
    pub open spec fn change(self) -> (Seq<u8>, Option<Seq<u8>>) {
        (
            self.name@,
            match self.value {
                Some(value) => Some(value@),
                None => None,
            },
        )
    }
}

/// The changes of a list.
pub open spec fn changes(list: Seq<EnvironmentChange>) -> Seq<(Seq<u8>, Option<Seq<u8>>)> {
    Seq::new(list.len(), |i: int| list[i].change())
}

/// Whether one change is well formed.
pub open spec fn change_ok(c: (Seq<u8>, Option<Seq<u8>>)) -> bool {
    &&& 1 <= c.0.len() <= MAX_ENVIRONMENT_NAME_BYTES
    &&& !c.0.contains(0u8)
    &&& !c.0.contains(61u8)
    &&& match c.1 {
        Some(value) => value.len() <= MAX_ENVIRONMENT_VALUE_BYTES && !value.contains(0u8),
        None => true,
    }
}

/// Bytes that one change takes.
pub open spec fn change_size(c: (Seq<u8>, Option<Seq<u8>>)) -> int {
    match c.1 {
        Some(value) => (c.0.len() + value.len()) as int,
        None => c.0.len() as int,
    }
}

/// Bytes that the first `n` changes take.
pub open spec fn changes_size(list: Seq<(Seq<u8>, Option<Seq<u8>>)>, n: int) -> int
    decreases n,
{
    if n <= 0 {
        0
    } else {
        changes_size(list, n - 1) + change_size(list[n - 1])
    }
}

/// Whether a list of changes is within the limits.
pub open spec fn change_set_ok(list: Seq<(Seq<u8>, Option<Seq<u8>>)>) -> bool {
    list.len() <= MAX_ENVIRONMENT_CHANGES && changes_size(list, list.len() as int)
        <= MAX_TOTAL_ENVIRONMENT_BYTES
}

/// Position of the change of `name` at or behind `from`.
pub open spec fn change_position(
    list: Seq<(Seq<u8>, Option<Seq<u8>>)>,
    name: Seq<u8>,
    from: int,
) -> Option<int>
    decreases list.len() - from,
{
    if from < 0 || from >= list.len() {
        None
    } else if list[from].0 == name {
        Some(from)
    } else {
        change_position(list, name, from + 1)
    }
}

/// A list of changes with one more: in the place of the change of the same
/// variable, or at the end.
pub open spec fn with_change(
    list: Seq<(Seq<u8>, Option<Seq<u8>>)>,
    c: (Seq<u8>, Option<Seq<u8>>),
) -> Seq<(Seq<u8>, Option<Seq<u8>>)> {
    match change_position(list, c.0, 0) {
        Some(at) => list.update(at, c),
        None => list.push(c),
    }
}

/// Whether no variable is changed twice.
pub open spec fn distinct_names(list: Seq<(Seq<u8>, Option<Seq<u8>>)>) -> bool {
    forall|i: int, j: int|
        0 <= i < j < list.len() ==> (#[trigger] list[i]).0 != (#[trigger] list[j]).0
}

proof fn lemma_change_position(list: Seq<(Seq<u8>, Option<Seq<u8>>)>, name: Seq<u8>, from: int)
    requires
        0 <= from,
    ensures
        match change_position(list, name, from) {
            Some(at) => from <= at < list.len() && list[at].0 == name,
            None => forall|i: int| from <= i < list.len() ==> (#[trigger] list[i]).0 != name,
        },
    decreases list.len() - from,
{
    if from < list.len() && list[from].0 != name {
        lemma_change_position(list, name, from + 1);
    }
}

/// A change keeps the variables distinct, and afterwards it is the one change
/// of its variable; the changes of other variables stay.
pub proof fn law_last_change_wins(
    list: Seq<(Seq<u8>, Option<Seq<u8>>)>,
    c: (Seq<u8>, Option<Seq<u8>>),
)
    requires
        distinct_names(list),
    ensures
        distinct_names(with_change(list, c)),
        with_change(list, c).contains(c),
        forall|i: int|
            0 <= i < list.len() && (#[trigger] list[i]).0 != c.0 ==> with_change(list, c)[i]
                == list[i],
{
    lemma_change_position(list, c.0, 0);
    match change_position(list, c.0, 0) {
        Some(at) => {
            assert(list.update(at, c)[at] == c);
        },
        None => {
            assert(list.push(c)[list.len() as int] == c);
        },
    }
}

/// Bounded, shell-free invocation.
pub struct SubprocessRequest {
    pub executable: Vec<u8>,
    pub arguments: Vec<Vec<u8>>,
    pub environment: Vec<EnvironmentChange>,
    pub stderr_classifier: Option<StderrClassifier>,
    pub clear_environment: bool,
    pub timeout: Duration,
    pub max_stdout_bytes: usize,
    pub max_stderr_bytes: usize,
}

/// The bytes of some arguments.
pub open spec fn argument_values(arguments: Seq<Vec<u8>>) -> Seq<Seq<u8>> {
    Seq::new(arguments.len(), |i: int| arguments[i]@)
}

/// Bytes that the first `n` arguments take.
pub open spec fn arguments_size(arguments: Seq<Seq<u8>>, n: int) -> int
    decreases n,
{
    if n <= 0 {
        0
    } else {
        arguments_size(arguments, n - 1) + arguments[n - 1].len()
    }
}

/// Whether arguments are within the limits.
pub open spec fn arguments_ok(arguments: Seq<Seq<u8>>) -> bool {
    &&& arguments.len() <= MAX_ARGUMENTS
    &&& forall|i: int|
        0 <= i < arguments.len() ==> (#[trigger] arguments[i]).len() <= MAX_ARGUMENT_BYTES
            && !arguments[i].contains(0u8)
    &&& arguments_size(arguments, arguments.len() as int) <= MAX_TOTAL_ARGUMENT_BYTES
}

/// Whether an invocation is within the limits.
pub open spec fn invocation_ok(
    executable: Seq<u8>,
    arguments: Seq<Seq<u8>>,
    timeout: Duration,
    max_stdout_bytes: usize,
    max_stderr_bytes: usize,
) -> bool {
    &&& 1 <= executable.len() <= MAX_EXECUTABLE_BYTES
    &&& executable[0] == 47
    &&& !executable.contains(0u8)
    &&& arguments_ok(arguments)
    &&& timeout.seconds != 0 || timeout.nanos != 0
    &&& !(Duration { seconds: MAX_TIMEOUT_SECONDS, nanos: 0 }).shorter(timeout)
    &&& 1 <= max_stdout_bytes <= MAX_OUTPUT_BYTES
    &&& 1 <= max_stderr_bytes <= MAX_OUTPUT_BYTES
}

/// Whether a list of bytes holds `b`.
pub fn holds_byte(bytes: &[u8], b: u8) -> (r: bool)
    ensures
        r == bytes@.contains(b),
{
    let mut i: usize = 0;
    while i < bytes.len()
        invariant
            i <= bytes@.len(),
            forall|j: int| 0 <= j < i ==> bytes@[j] != b,
        decreases bytes@.len() - i,
    {
        if bytes[i] == b {
            assert(bytes@[i as int] == b);
            return true;
        }
        i += 1;
    }
    false
}

proof fn lemma_arguments_size(arguments: Seq<Seq<u8>>, n: int, m: int)
    requires
        0 <= n <= m <= arguments.len(),
    ensures
        arguments_size(arguments, n) <= arguments_size(arguments, m),
    decreases m - n,
{
    if n < m {
        lemma_arguments_size(arguments, n, m - 1);
    }
}

/// Checks arguments against the limits.
pub fn validate_arguments(arguments: &Vec<Vec<u8>>) -> (r: Result<(), SubprocessError>)
    ensures
        match r {
            Ok(_) => arguments_ok(argument_values(arguments@)),
            Err(e) => !arguments_ok(argument_values(arguments@)) && e
                == SubprocessError::InvalidConfiguration,
        },
{
    let ghost all = argument_values(arguments@);
    let mut total: usize = 0;
    let mut i: usize = 0;
    while i < arguments.len()
        invariant
            all == argument_values(arguments@),
            i <= arguments@.len(),
            i <= MAX_ARGUMENTS,
            total == arguments_size(all, i as int),
            total <= MAX_TOTAL_ARGUMENT_BYTES,
            forall|j: int|
                0 <= j < i ==> (#[trigger] all[j]).len() <= MAX_ARGUMENT_BYTES
                    && !all[j].contains(0u8),
        decreases arguments@.len() - i,
    {
        if i == MAX_ARGUMENTS {
            return Err(SubprocessError::InvalidConfiguration);
        }
        assert(all[i as int] == arguments@[i as int]@);
        if arguments[i].len() > MAX_ARGUMENT_BYTES || holds_byte(arguments[i].as_slice(), 0) {
            return Err(SubprocessError::InvalidConfiguration);
        }
        proof {
            lemma_arguments_size(all, i as int + 1, all.len() as int);
        }
        total = total + arguments[i].len();
        if total > MAX_TOTAL_ARGUMENT_BYTES {
            return Err(SubprocessError::InvalidConfiguration);
        }
        i += 1;
    }
    Ok(())
}

proof fn lemma_changes_size(list: Seq<(Seq<u8>, Option<Seq<u8>>)>, n: int, m: int)
    requires
        0 <= n <= m <= list.len(),
    ensures
        0 <= changes_size(list, n) <= changes_size(list, m),
    decreases m,
{
    if n < m {
        lemma_changes_size(list, n, m - 1);
    } else if n > 0 {
        lemma_changes_size(list, n - 1, n - 1);
    }
}

/// Checks one change.
pub fn validate_environment_change(c: &EnvironmentChange) -> (r: Result<(), SubprocessError>)
    ensures
        match r {
            Ok(_) => change_ok(c.change()),
            Err(e) => !change_ok(c.change()) && e == SubprocessError::InvalidConfiguration,
        },
{
    let name = c.name.as_slice();
    if name.len() == 0 || name.len() > MAX_ENVIRONMENT_NAME_BYTES || holds_byte(name, 0)
        || holds_byte(name, 61) {
        return Err(SubprocessError::InvalidConfiguration);
    }
    if let Some(value) = &c.value {
        if value.len() > MAX_ENVIRONMENT_VALUE_BYTES || holds_byte(value.as_slice(), 0) {
            return Err(SubprocessError::InvalidConfiguration);
        }
    }
    Ok(())
}

/// Checks a list of changes against the limits.
pub fn validate_environment_set(list: &Vec<EnvironmentChange>) -> (r: Result<(), SubprocessError>)
    ensures
        match r {
            Ok(_) => change_set_ok(changes(list@)),
            Err(e) => !change_set_ok(changes(list@)) && e == SubprocessError::InvalidConfiguration,
        },
{
    if list.len() > MAX_ENVIRONMENT_CHANGES {
        return Err(SubprocessError::InvalidConfiguration);
    }
    let ghost all = changes(list@);
    let mut total: usize = 0;
    let mut i: usize = 0;
    while i < list.len()
        invariant
            all == changes(list@),
            i <= list@.len(),
            total == changes_size(all, i as int),
            total <= MAX_TOTAL_ENVIRONMENT_BYTES,
        decreases list@.len() - i,
    {
        assert(all[i as int] == list@[i as int].change());
        proof {
            lemma_changes_size(all, i as int + 1, all.len() as int);
        }
        let name_size: usize = list[i].name.len();
        let value_size: usize = match &list[i].value {
            Some(value) => value.len(),
            None => 0,
        };
        if name_size > MAX_TOTAL_ENVIRONMENT_BYTES || value_size > MAX_TOTAL_ENVIRONMENT_BYTES {
            return Err(SubprocessError::InvalidConfiguration);
        }
        total = total + name_size + value_size;
        if total > MAX_TOTAL_ENVIRONMENT_BYTES {
            return Err(SubprocessError::InvalidConfiguration);
        }
        i += 1;
    }
    Ok(())
}

fn same_bytes(a: &[u8], b: &[u8]) -> (r: bool)
    ensures
        r == (a@ == b@),
{
    if a.len() != b.len() {
        return false;
    }
    let mut i: usize = 0;
    while i < a.len()
        invariant
            a@.len() == b@.len(),
            i <= a@.len(),
            forall|j: int| 0 <= j < i ==> a@[j] == b@[j],
        decreases a@.len() - i,
    {
        if a[i] != b[i] {
            return false;
        }
        i += 1;
    }
    assert(a@ =~= b@);
    true
}

impl SubprocessRequest {
    /// The invocation is within the limits, and so are its environment changes,
    /// of which no two concern the same variable.
    pub open spec fn wf(self) -> bool {
        &&& invocation_ok(
            self.executable@,
            argument_values(self.arguments@),
            self.timeout,
            self.max_stdout_bytes,
            self.max_stderr_bytes,
        )
        &&& change_set_ok(changes(self.environment@))
        &&& distinct_names(changes(self.environment@))
        &&& forall|i: int|
            0 <= i < self.environment@.len() ==> change_ok(
                #[trigger] changes(self.environment@)[i],
            )
    }

    /// Creates an invocation within the limits.
    pub fn new(
        executable: Vec<u8>,
        arguments: Vec<Vec<u8>>,
        timeout: Duration,
        max_stdout_bytes: usize,
        max_stderr_bytes: usize,
    ) -> (r: Result<SubprocessRequest, SubprocessError>)
        ensures
            match r {
                Ok(request) => invocation_ok(
                    executable@,
                    argument_values(arguments@),
                    timeout,
                    max_stdout_bytes,
                    max_stderr_bytes,
                ) && request.executable == executable && request.arguments == arguments
                    && request.environment@.len() == 0 && request.stderr_classifier is None
                    && !request.clear_environment && request.timeout == timeout
                    && request.max_stdout_bytes == max_stdout_bytes && request.max_stderr_bytes
                    == max_stderr_bytes && request.wf(),
                Err(e) => !invocation_ok(
                    executable@,
                    argument_values(arguments@),
                    timeout,
                    max_stdout_bytes,
                    max_stderr_bytes,
                ) && e == SubprocessError::InvalidConfiguration,
            },
    {
        if let Err(e) = validate_arguments(&arguments) {
            return Err(e);
        }
        let path = executable.as_slice();
        if path.len() == 0 || path.len() > MAX_EXECUTABLE_BYTES || path[0] != 47 || holds_byte(
            path,
            0,
        ) || timeout.is_zero() || Duration::from_secs(MAX_TIMEOUT_SECONDS).is_shorter(timeout)
            || max_stdout_bytes == 0 || max_stdout_bytes > MAX_OUTPUT_BYTES || max_stderr_bytes == 0
            || max_stderr_bytes > MAX_OUTPUT_BYTES {
            return Err(SubprocessError::InvalidConfiguration);
        }
        Ok(
            SubprocessRequest {
                executable,
                arguments,
                environment: Vec::new(),
                stderr_classifier: None,
                clear_environment: false,
                timeout,
                max_stdout_bytes,
                max_stderr_bytes,
            },
        )
    }

    /// Starts from an empty environment.
    pub fn with_cleared_environment(self) -> (r: SubprocessRequest)
        ensures
            r == (SubprocessRequest { clear_environment: true, ..self }),
            self.wf() ==> r.wf(),
    {
        let mut request = self;
        request.clear_environment = true;
        request
    }

    /// Classifies the standard error of an unsuccessful run.
    pub fn with_stderr_classifier(self, classifier: StderrClassifier) -> (r: SubprocessRequest)
        ensures
            r == (SubprocessRequest { stderr_classifier: Some(classifier), ..self }),
            self.wf() ==> r.wf(),
    {
        let mut request = self;
        request.stderr_classifier = Some(classifier);
        request
    }

    /// Adds one environment change, in the place of an earlier change of the
    /// same variable.
    fn replace_environment_change(self, c: EnvironmentChange) -> (r: Result<
        SubprocessRequest,
        SubprocessError,
    >)
        requires
            self.wf(),
        ensures
            match r {
                Ok(request) => change_ok(c.change()) && change_set_ok(
                    with_change(changes(self.environment@), c.change()),
                ) && changes(request.environment@) == with_change(
                    changes(self.environment@),
                    c.change(),
                ) && request == (SubprocessRequest { environment: request.environment, ..self })
                    && request.wf(),
                Err(e) => !(change_ok(c.change()) && change_set_ok(
                    with_change(changes(self.environment@), c.change()),
                )) && e == SubprocessError::InvalidConfiguration,
            },
    {
        if let Err(e) = validate_environment_change(&c) {
            return Err(e);
        }
        let ghost all = changes(self.environment@);
        let ghost added = c.change();
        proof {
            law_last_change_wins(all, added);
            lemma_change_position(all, added.0, 0);
        }
        let mut request = self;
        let mut i: usize = 0;
        let mut found: Option<usize> = None;
        while i < request.environment.len()
            invariant_except_break
                found is None,
                change_position(all, added.0, 0) == change_position(all, added.0, i as int),
            invariant
                all == changes(request.environment@),
                added == c.change(),
                i <= request.environment@.len(),
            ensures
                match found {
                    Some(at) => at < request.environment@.len() && change_position(all, added.0, 0)
                        == Some(at as int),
                    None => change_position(all, added.0, 0) is None,
                },
            decreases request.environment@.len() - i,
        {
            assert(all[i as int].0 == request.environment@[i as int].name@);
            if same_bytes(request.environment[i].name.as_slice(), c.name.as_slice()) {
                found = Some(i);
                break;
            }
            i += 1;
        }
        match found {
            Some(at) => {
                request.environment.set(at, c);
                assert(changes(request.environment@) =~= all.update(at as int, added));
            },
            None => {
                request.environment.push(c);
                assert(changes(request.environment@) =~= all.push(added));
            },
        }
        assert(changes(request.environment@) == with_change(all, added));
        match validate_environment_set(&request.environment) {
            Ok(_) => {
                assert forall|k: int| 0 <= k < request.environment@.len() implies change_ok(
                    #[trigger] changes(request.environment@)[k],
                ) by {
                    if k < all.len() && all[k].0 != added.0 {
                        assert(change_ok(all[k]));
                    } else if k < all.len() {
                        if change_position(all, added.0, 0) is Some && k != change_position(
                            all,
                            added.0,
                            0,
                        )->0 {
                            assert(change_ok(all[k]));
                        }
                    }
                }
                Ok(request)
            },
            Err(e) => Err(e),
        }
    }

    /// Sets one environment variable.
    pub fn with_environment(self, name: Vec<u8>, value: Vec<u8>) -> (r: Result<
        SubprocessRequest,
        SubprocessError,
    >)
        requires
            self.wf(),
        ensures
            ({
                let c = (name@, Some(value@));
                let list = with_change(changes(self.environment@), c);
                match r {
                    Ok(request) => change_ok(c) && change_set_ok(list) && changes(
                        request.environment@,
                    ) == list && request == (SubprocessRequest {
                        environment: request.environment,
                        ..self
                    }) && request.wf(),
                    Err(e) => !(change_ok(c) && change_set_ok(list)) && e
                        == SubprocessError::InvalidConfiguration,
                }
            }),
    {
        self.replace_environment_change(EnvironmentChange { name, value: Some(value) })
    }

    /// Removes one environment variable.
    pub fn without_environment(self, name: Vec<u8>) -> (r: Result<
        SubprocessRequest,
        SubprocessError,
    >)
        requires
            self.wf(),
        ensures
            ({
                let c = (name@, None::<Seq<u8>>);
                let list = with_change(changes(self.environment@), c);
                match r {
                    Ok(request) => change_ok(c) && change_set_ok(list) && changes(
                        request.environment@,
                    ) == list && request == (SubprocessRequest {
                        environment: request.environment,
                        ..self
                    }) && request.wf(),
                    Err(e) => !(change_ok(c) && change_set_ok(list)) && e
                        == SubprocessError::InvalidConfiguration,
                }
            }),
    {
        self.replace_environment_change(EnvironmentChange { name, value: None })
    }
}

/// Why reading one output failed.
#[derive(Debug, Clone, Copy, PartialEq, Eq, Structural)]
pub enum ReadFailure {
    Io,
    TooLarge,
}

/// Adds what was read to an output, unless it would grow beyond `limit`.
pub fn append_output(output: &mut Vec<u8>, chunk: &[u8], limit: usize) -> (r: Result<
    (),
    ReadFailure,
>)
    ensures
        match r {
            Ok(_) => (chunk@.len() == 0 || old(output)@.len() + chunk@.len() <= limit)
                && final(output)@ == old(output)@ + chunk@,
            Err(e) => chunk@.len() > 0 && old(output)@.len() + chunk@.len() > limit && e
                == ReadFailure::TooLarge && final(output)@ == old(output)@,
        },
{
    let have: usize = output.len();
    let more: usize = chunk.len();
    if more == 0 {
        assert(old(output)@ + chunk@ =~= old(output)@);
        return Ok(());
    }
    if more > limit || have > limit - more {
        return Err(ReadFailure::TooLarge);
    }
    output.extend_from_slice(chunk);
    assert(output@ =~= old(output)@ + chunk@);
    Ok(())
}

/// How a process ended.
#[derive(Debug, Clone, Copy, PartialEq, Eq, Structural)]
pub struct Exit {
    pub success: bool,
    pub code: Option<i32>,
}

/// The result of a process that ended.
pub open spec fn finished(
    exit: Exit,
    stderr: Seq<u8>,
    classifier: Option<StderrClassifier>,
) -> Option<SubprocessError> {
    if exit.success {
        None
    } else {
        Some(
            SubprocessError::NonZero {
                code: exit.code,
                stderr_tag: match classifier {
                    Some(c) => first_tag(rule_values(c.rules@), stderr, 0),
                    None => None,
                },
            },
        )
    }
}

/// The result of a process that ended with its whole output read.
pub fn finish(
    exit: Exit,
    stdout: Vec<u8>,
    stderr: Vec<u8>,
    classifier: &Option<StderrClassifier>,
) -> (r: Result<SubprocessOutput, SubprocessError>)
    ensures
        match r {
            Ok(output) => finished(exit, stderr@, *classifier) is None && output.stdout@ == stdout@
                && output.stderr@ == stderr@,
            Err(e) => finished(exit, stderr@, *classifier) == Some(e),
        },
{
    if exit.success {
        Ok(SubprocessOutput { stdout, stderr })
    } else {
        let stderr_tag = match classifier {
            Some(c) => c.classify(stderr.as_slice()),
            None => None,
        };
        Err(SubprocessError::NonZero { code: exit.code, stderr_tag })
    }
}

/// What a run still waits for.
pub struct RunState {
    pub stdout: Option<Vec<u8>>,
    pub stderr: Option<Vec<u8>>,
    pub exit: Option<Exit>,
}

/// What happened during a run.
pub enum RunEvent {
    Cancelled,
    Deadline,
    Stdout(Result<Vec<u8>, ReadFailure>),
    Stderr(Result<Vec<u8>, ReadFailure>),
    /// `None` where the status could not be collected.
    Exited(Option<Exit>),
}

/// What to do after an event.
pub enum RunStep {
    /// Wait for the next event.
    Continue(RunState),
    /// Terminate the process and fail.
    Terminate(SubprocessError),
    /// Fail at once.
    Fail(SubprocessError),
}

/// The failure that an event brings, and whether the process is terminated.
pub open spec fn event_failure(event: RunEvent) -> Option<(SubprocessError, bool)> {
    match event {
        RunEvent::Cancelled => Some((SubprocessError::Cancelled, true)),
        RunEvent::Deadline => Some((SubprocessError::Timeout, true)),
        RunEvent::Stdout(Err(ReadFailure::TooLarge)) => Some(
            (SubprocessError::StdoutTooLarge, true),
        ),
        RunEvent::Stderr(Err(ReadFailure::TooLarge)) => Some(
            (SubprocessError::StderrTooLarge, true),
        ),
        RunEvent::Stdout(Err(ReadFailure::Io)) => Some((SubprocessError::OutputRead, true)),
        RunEvent::Stderr(Err(ReadFailure::Io)) => Some((SubprocessError::OutputRead, true)),
        RunEvent::Exited(None) => Some((SubprocessError::Wait, false)),
        _ => None,
    }
}

/// The state after an event without a failure.
pub open spec fn state_after(state: RunState, event: RunEvent) -> RunState {
    match event {
        RunEvent::Stdout(Ok(bytes)) => RunState { stdout: Some(bytes), ..state },
        RunEvent::Stderr(Ok(bytes)) => RunState { stderr: Some(bytes), ..state },
        RunEvent::Exited(Some(exit)) => RunState { exit: Some(exit), ..state },
        _ => state,
    }
}

impl RunState {
    /// A run that waits for everything.
    pub fn start() -> (r: RunState)
        ensures
            r == (RunState { stdout: None, stderr: None, exit: None }),
    {
        RunState { stdout: None, stderr: None, exit: None }
    }

    /// Whether the run waits for nothing more.
    pub fn is_complete(&self) -> (r: bool)
        ensures
            r == (self.stdout is Some && self.stderr is Some && self.exit is Some),
    {
        self.stdout.is_some() && self.stderr.is_some() && self.exit.is_some()
    }

    /// Decides what an event leads to.
    pub fn on_event(self, event: RunEvent) -> (r: RunStep)
        ensures
            match event_failure(event) {
                Some((e, true)) => r == RunStep::Terminate(e),
                Some((e, false)) => r == RunStep::Fail(e),
                None => r == RunStep::Continue(state_after(self, event)),
            },
    {
        match event {
            RunEvent::Cancelled => RunStep::Terminate(SubprocessError::Cancelled),
            RunEvent::Deadline => RunStep::Terminate(SubprocessError::Timeout),
            RunEvent::Stdout(Ok(bytes)) => RunStep::Continue(
                RunState { stdout: Some(bytes), stderr: self.stderr, exit: self.exit },
            ),
            RunEvent::Stdout(Err(ReadFailure::TooLarge)) => RunStep::Terminate(
                SubprocessError::StdoutTooLarge,
            ),
            RunEvent::Stdout(Err(ReadFailure::Io)) => RunStep::Terminate(
                SubprocessError::OutputRead,
            ),
            RunEvent::Stderr(Ok(bytes)) => RunStep::Continue(
                RunState { stdout: self.stdout, stderr: Some(bytes), exit: self.exit },
            ),
            RunEvent::Stderr(Err(ReadFailure::TooLarge)) => RunStep::Terminate(
                SubprocessError::StderrTooLarge,
            ),
            RunEvent::Stderr(Err(ReadFailure::Io)) => RunStep::Terminate(
                SubprocessError::OutputRead,
            ),
            RunEvent::Exited(Some(exit)) => RunStep::Continue(
                RunState { stdout: self.stdout, stderr: self.stderr, exit: Some(exit) },
            ),
            RunEvent::Exited(None) => RunStep::Fail(SubprocessError::Wait),
        }
    }
}

/// A child that ends well never fails, whatever it writes to standard error; one that
/// does not, fails with its own code.
pub proof fn law_exits_decide(exit: Exit, stderr: Seq<u8>, classifier: Option<StderrClassifier>)
    ensures
        exit.success <==> finished(exit, stderr, classifier) is None,
        finished(exit, stderr, classifier) matches Some(e) ==> (e matches SubprocessError::NonZero {
            code,
            stderr_tag,
        } && code == exit.code && (classifier is None ==> stderr_tag is None)),
{
}

/// Every failure but that of waiting ends the child; what was read or observed is
/// kept, and nothing else changes.
pub proof fn law_events_change_one_thing(state: RunState, event: RunEvent)
    ensures
        event_failure(event) matches Some((e, ends_child)) ==> state_after(state, event) == state && (
        !ends_child <==> e == SubprocessError::Wait),
        event is Cancelled ==> event_failure(event) == Some((SubprocessError::Cancelled, true)),
        event is Deadline ==> event_failure(event) == Some((SubprocessError::Timeout, true)),
        event matches RunEvent::Stdout(Ok(bytes)) ==> event_failure(event) is None && state_after(
            state,
            event,
        ).stdout == Some(bytes) && state_after(state, event).stderr == state.stderr && state_after(
            state,
            event,
        ).exit == state.exit,
        event matches RunEvent::Stderr(Ok(bytes)) ==> event_failure(event) is None && state_after(
            state,
            event,
        ).stderr == Some(bytes) && state_after(state, event).stdout == state.stdout && state_after(
            state,
            event,
        ).exit == state.exit,
        event matches RunEvent::Exited(Some(exit)) ==> event_failure(event) is None && state_after(
            state,
            event,
        ).exit == Some(exit) && state_after(state, event).stdout == state.stdout && state_after(
            state,
            event,
        ).stderr == state.stderr,
{
}

/// Letters of standard error are compared without regard to case, and nothing else
/// is: bytes are the same where they are equal or the two cases of one letter.
pub proof fn law_only_case_is_ignored(a: u8, b: u8)
    ensures
        lower_byte(a) == lower_byte(b) <==> a == b || (65 <= a <= 90 && b == a + 32) || (65 <= b <= 90
            && a == b + 32),
{
}

/// An invocation names its executable by an absolute path, takes some time and at most
/// five minutes, and keeps at most a mebibyte of each output.
pub proof fn law_invocations_are_bounded(
    executable: Seq<u8>,
    arguments: Seq<Seq<u8>>,
    timeout: Duration,
    max_stdout_bytes: usize,
    max_stderr_bytes: usize,
)
    ensures
        invocation_ok(executable, arguments, timeout, max_stdout_bytes, max_stderr_bytes) ==> {
            &&& 1 <= executable.len() <= 4096
            &&& executable[0] == '/' as u8
            &&& !executable.contains(0u8)
            &&& 0 < timeout.seconds * 1_000_000_000 + timeout.nanos
            &&& timeout.seconds < 300 || (timeout.seconds == 300 && timeout.nanos == 0)
            &&& 1 <= max_stdout_bytes <= 1_048_576
            &&& 1 <= max_stderr_bytes <= 1_048_576
        },
{
}

/// A change names a variable without a sign of equality and gives it at most 65536
/// bytes without a zero.
pub proof fn law_changes_are_bounded(c: (Seq<u8>, Option<Seq<u8>>))
    ensures
        change_ok(c) ==> {
            &&& 1 <= c.0.len() <= 256
            &&& !c.0.contains(0u8)
            &&& !c.0.contains('=' as u8)
            &&& c.1 matches Some(value) ==> value.len() <= 65_536 && !value.contains(0u8)
        },
{
}

} // verus!
