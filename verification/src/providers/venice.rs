//! Venice billing balance in DIEM and dollars.

use vstd::prelude::*;
use vstd::slice::slice_subrange;

use crate::decimal;
use crate::decimal::Decimal;
use crate::error;
use crate::error::{ClassifiedError, ErrorKind};
use crate::instant::Timestamp;
use crate::json;
use crate::json::{Json, Tree};
use crate::registry::ProviderId;
use crate::retry;
use crate::retry::RetryPolicy;
use crate::settings;
use crate::settings::{ApiKeyCredential, Environment};
use crate::text;
use crate::transport;
use crate::transport::TransportConfig;
use crate::usage;
use crate::usage::{RateWindow, SampleView, UsageSample, WindowView};

verus! {

pub const MAX_RESPONSE_BYTES: usize = 5 * 1024 * 1024;

/// The variables that may hold the key, in order.
pub open spec fn key_names() -> Seq<Seq<char>> {
    seq!["VENICE_API_KEY"@, "VENICE_KEY"@]
}

/// An adapter bound to a key.
pub struct VeniceProvider {
    pub base_url: String,
}

impl VeniceProvider {
    /// The key of an environment.
    pub fn resolve_credential(environment: &Environment) -> (r: Result<
        ApiKeyCredential,
        ClassifiedError,
    >)
        ensures
            settings::is_selected_key(r, *environment, key_names()),
    {
        let names = vec!["VENICE_API_KEY", "VENICE_KEY"];
        assert(names.deep_view() =~= key_names());
        ApiKeyCredential::resolve(environment, &names)
    }

    /// The adapter at the production origin.
    pub fn new(provider: ProviderId) -> (r: Result<VeniceProvider, ClassifiedError>)
        ensures
            match r {
                Ok(adapter) => provider == ProviderId::Venice && adapter.base_url@
                    == "https://api.venice.ai"@,
                Err(e) => provider != ProviderId::Venice && e == error::plain(ErrorKind::Api),
            },
    {
        VeniceProvider::from_client(provider, "https://api.venice.ai".to_owned())
    }

    /// Wraps the client of an account.
    pub fn from_client(provider: ProviderId, base_url: String) -> (r: Result<
        VeniceProvider,
        ClassifiedError,
    >)
        ensures
            match r {
                Ok(adapter) => provider == ProviderId::Venice && adapter.base_url == base_url,
                Err(e) => provider != ProviderId::Venice && e == error::plain(ErrorKind::Api),
            },
    {
        if provider != ProviderId::Venice {
            return Err(ClassifiedError::new(ErrorKind::Api));
        }
        Ok(VeniceProvider { base_url })
    }
}

/// What may be a number: a decimal text, or digits to a base.
pub enum Amount {
    Text(String),
    Based { radix: u32, digits: String },
}

/// Mathematical value of an [`Amount`].
pub enum AmountValue {
    Text(Seq<char>),
    Based(u32, Seq<char>),
}

impl Amount {
    pub open spec fn value(self) -> AmountValue {
        match self {
            Amount::Text(s) => AmountValue::Text(s@),
            Amount::Based { radix, digits } => AmountValue::Based(radix, digits@),
        }
    }
}

/// The value of an amount that may be absent.
pub open spec fn amount_value(amount: Option<Amount>) -> Option<AmountValue> {
    match amount {
        Some(a) => Some(a.value()),
        None => None,
    }
}

/// Whether a character is a digit to a base.
pub open spec fn digit_to(c: char, radix: u32) -> bool {
    if radix <= 10 {
        '0' <= c && (c as u32) < 48 + radix
    } else {
        ('0' <= c && c <= '9') || ('a' <= c && c <= 'f') || ('A' <= c && c <= 'F')
    }
}

/// Whether a text is digits to a base.
pub open spec fn digits_to(s: Seq<char>, radix: u32) -> bool {
    s.len() > 0 && forall|i: int| 0 <= i < s.len() ==> digit_to(#[trigger] s[i], radix)
}

fn is_digits_to(s: &[char], radix: u32) -> (r: bool)
    requires
        radix == 2 || radix == 8 || radix == 16,
    ensures
        r == digits_to(s@, radix),
{
    if s.len() == 0 {
        return false;
    }
    let mut i: usize = 0;
    while i < s.len()
        invariant
            i <= s@.len(),
            s@.len() > 0,
            radix == 2 || radix == 8 || radix == 16,
            forall|j: int| 0 <= j < i ==> digit_to(#[trigger] s@[j], radix),
        decreases s@.len() - i,
    {
        let c = s[i];
        let fits = if radix <= 10 {
            '0' <= c && (c as u32) < 48 + radix
        } else {
            ('0' <= c && c <= '9') || ('a' <= c && c <= 'f') || ('A' <= c && c <= 'F')
        };
        if !fits {
            assert(!digit_to(s@[i as int], radix));
            return false;
        }
        i += 1;
    }
    true
}

/// The base that a prefix tells.
pub open spec fn radix_of(s: Seq<char>) -> Option<u32> {
    if s.len() < 2 || s[0] != '0' {
        None
    } else if s[1] == 'x' || s[1] == 'X' {
        Some(16u32)
    } else if s[1] == 'o' || s[1] == 'O' {
        Some(8u32)
    } else if s[1] == 'b' || s[1] == 'B' {
        Some(2u32)
    } else {
        None
    }
}

/// What a text may be as a number.
pub open spec fn text_amount(raw: Seq<char>) -> Option<AmountValue> {
    let s = text::trimmed(raw);
    if s.len() == 0 {
        Some(AmountValue::Text("0"@))
    } else {
        match radix_of(s) {
            Some(radix) => if digits_to(s.skip(2), radix) {
                Some(AmountValue::Based(radix, s.skip(2)))
            } else {
                None
            },
            None => Some(AmountValue::Text(s)),
        }
    }
}

fn read_amount(raw: &str) -> (r: Option<Amount>)
    ensures
        amount_value(r) == text_amount(raw@),
{
    let chars = text::chars_of(raw);
    let s = text::trim(chars.as_slice());
    let n: usize = s.len();
    if n == 0 {
        return Some(Amount::Text("0".to_owned()));
    }
    let radix: u32 = if n < 2 || s[0] != '0' {
        0
    } else if s[1] == 'x' || s[1] == 'X' {
        16
    } else if s[1] == 'o' || s[1] == 'O' {
        8
    } else if s[1] == 'b' || s[1] == 'B' {
        2
    } else {
        0
    };
    if radix == 0 {
        return Some(Amount::Text(text::text_of(s)));
    }
    let digits = slice_subrange(s, 2, n);
    assert(digits@ =~= text::trimmed(raw@).skip(2));
    if is_digits_to(digits, radix) {
        Some(Amount::Based { radix, digits: text::text_of(digits) })
    } else {
        None
    }
}

/// A number that may be absent: `Some(None)` where it is, `None` where the value
/// can be none.
pub open spec fn amount_if_any(t: Option<Tree>) -> Option<Option<AmountValue>> {
    match t {
        None | Some(Tree::Null) => Some(None),
        Some(Tree::Number(n)) => Some(Some(AmountValue::Text(n))),
        Some(Tree::Text(s)) => if s.len() == 0 {
            Some(None)
        } else {
            match text_amount(s) {
                Some(amount) => Some(Some(amount)),
                None => None,
            }
        },
        _ => None,
    }
}

/// The value of a found field.
pub open spec fn found_tree(value: Option<&Json>) -> Option<Tree> {
    match value {
        Some(v) => Some(v.tree()),
        None => None,
    }
}

fn optional_number(value: Option<&Json>) -> (r: Result<Option<Amount>, ClassifiedError>)
    ensures
        match r {
            Ok(amount) => amount_if_any(found_tree(value)) == Some(amount_value(amount)),
            Err(e) => amount_if_any(found_tree(value)) is None && e == error::plain(
                ErrorKind::Parse,
            ),
        },
{
    match value {
        None => Ok(None),
        Some(Json::Null) => Ok(None),
        Some(Json::Number(n)) => Ok(Some(Amount::Text(n.clone()))),
        Some(Json::Text(s)) => {
            if s.as_str().is_empty() {
                return Ok(None);
            }
            match read_amount(s.as_str()) {
                Some(amount) => Ok(Some(amount)),
                None => Err(ClassifiedError::new(ErrorKind::Parse)),
            }
        },
        Some(_) => Err(ClassifiedError::new(ErrorKind::Parse)),
    }
}

/// The currency in upper case, where one is named.
pub open spec fn currency_if_any(t: Option<Tree>) -> Option<Option<Seq<char>>> {
    match t {
        None | Some(Tree::Null) => Some(None),
        Some(Tree::Text(s)) => if s.len() == 0 {
            Some(None)
        } else {
            Some(Some(text::upper_text_of(s)))
        },
        _ => None,
    }
}

fn optional_currency(value: Option<&Json>) -> (r: Result<Option<String>, ClassifiedError>)
    ensures
        match r {
            Ok(currency) => currency_if_any(found_tree(value)) == Some(currency.deep_view()),
            Err(e) => currency_if_any(found_tree(value)) is None && e == error::plain(
                ErrorKind::Parse,
            ),
        },
{
    match value {
        None => Ok(None),
        Some(Json::Null) => Ok(None),
        Some(Json::Text(s)) => if s.as_str().is_empty() {
            Ok(None)
        } else {
            Ok(Some(text::upper_text(s.as_str())))
        },
        Some(_) => Err(ClassifiedError::new(ErrorKind::Parse)),
    }
}

/// What an answer tells of a balance.
pub struct VeniceResponse {
    pub can_consume: bool,
    pub currency: Option<String>,
    pub diem: Option<Amount>,
    pub usd: Option<Amount>,
    pub allocation: Option<Amount>,
}

/// Mathematical value of a [`VeniceResponse`].
pub struct ResponseValue {
    pub can_consume: bool,
    pub currency: Option<Seq<char>>,
    pub diem: Option<AmountValue>,
    pub usd: Option<AmountValue>,
    pub allocation: Option<AmountValue>,
}

impl VeniceResponse {
    pub open spec fn value(self) -> ResponseValue {
        ResponseValue {
            can_consume: self.can_consume,
            currency: self.currency.deep_view(),
            diem: amount_value(self.diem),
            usd: amount_value(self.usd),
            allocation: amount_value(self.allocation),
        }
    }
}

/// What an answer tells of a balance; `None` where it is malformed.
pub open spec fn response_of(payload: Tree) -> Option<ResponseValue> {
    match (json::field(payload, "canConsume"@), json::field(payload, "balances"@)) {
        (Some(Tree::Bool(can_consume)), Some(balances)) => if balances is Object {
            match (
                currency_if_any(json::field(payload, "consumptionCurrency"@)),
                amount_if_any(json::field(balances, "diem"@)),
                amount_if_any(json::field(balances, "usd"@)),
                amount_if_any(json::field(payload, "diemEpochAllocation"@)),
            ) {
                (Some(currency), Some(diem), Some(usd), Some(allocation)) => Some(
                    ResponseValue { can_consume, currency, diem, usd, allocation },
                ),
                _ => None,
            }
        } else {
            None
        },
        _ => None,
    }
}

/// What an answer tells of a balance.
pub fn parse_response(payload: &Json) -> (r: Result<VeniceResponse, ClassifiedError>)
    ensures
        match r {
            Ok(response) => response_of(payload.tree()) == Some(response.value()),
            Err(e) => response_of(payload.tree()) is None && e == error::plain(ErrorKind::Parse),
        },
{
    let can_consume = match payload.get("canConsume") {
        Some(Json::Bool(can_consume)) => *can_consume,
        _ => return Err(ClassifiedError::new(ErrorKind::Parse)),
    };
    let balances = match payload.get("balances") {
        Some(balances) => balances,
        None => return Err(ClassifiedError::new(ErrorKind::Parse)),
    };
    if !balances.is_object() {
        return Err(ClassifiedError::new(ErrorKind::Parse));
    }
    let currency = optional_currency(payload.get("consumptionCurrency"))?;
    let diem = optional_number(balances.get("diem"))?;
    let usd = optional_number(balances.get("usd"))?;
    let allocation = optional_number(payload.get("diemEpochAllocation"))?;
    Ok(VeniceResponse { can_consume, currency, diem, usd, allocation })
}

/// Which balance a reading shows.
#[derive(Debug, Clone, Copy, PartialEq, Eq, Structural)]
pub enum ShownBalance {
    Unavailable,
    Dollars,
    Epoch,
    Diem,
    Nothing,
}

/// Which balance a reading shows. The last three arguments tell, of each amount
/// that is known, whether it is positive.
pub open spec fn shown_balance(
    can_consume: bool,
    currency: Option<Seq<char>>,
    diem: Option<bool>,
    usd: Option<bool>,
    allocation: Option<bool>,
) -> ShownBalance {
    if !can_consume {
        ShownBalance::Unavailable
    } else if currency == Some("USD"@) && usd == Some(true) {
        ShownBalance::Dollars
    } else if currency != Some("USD"@) && diem is Some && allocation == Some(true) {
        ShownBalance::Epoch
    } else if diem == Some(true) {
        ShownBalance::Diem
    } else if usd == Some(true) {
        ShownBalance::Dollars
    } else {
        ShownBalance::Nothing
    }
}

/// Which balance a reading shows.
pub fn select_balance(
    can_consume: bool,
    currency: &Option<String>,
    diem: Option<bool>,
    usd: Option<bool>,
    allocation: Option<bool>,
) -> (r: ShownBalance)
    ensures
        r == shown_balance(can_consume, currency.deep_view(), diem, usd, allocation),
{
    if !can_consume {
        return ShownBalance::Unavailable;
    }
    let in_dollars = match currency {
        Some(name) => text::same_text(name.as_str(), "USD"),
        None => false,
    };
    let has_dollars = match usd {
        Some(positive) => positive,
        None => false,
    };
    let has_diem = match diem {
        Some(positive) => positive,
        None => false,
    };
    let has_allocation = match allocation {
        Some(positive) => positive,
        None => false,
    };
    if in_dollars && has_dollars {
        ShownBalance::Dollars
    } else if !in_dollars && diem.is_some() && has_allocation {
        ShownBalance::Epoch
    } else if has_diem {
        ShownBalance::Diem
    } else if has_dollars {
        ShownBalance::Dollars
    } else {
        ShownBalance::Nothing
    }
}

/// The description of a balance, for amounts with two decimals each.
pub open spec fn balance_line(
    shown: ShownBalance,
    diem: Seq<char>,
    usd: Seq<char>,
    allocation: Seq<char>,
) -> Seq<char> {
    match shown {
        ShownBalance::Unavailable => "Balance unavailable for API calls"@,
        ShownBalance::Dollars => "$"@ + usd + " USD remaining"@,
        ShownBalance::Epoch => "DIEM "@ + diem + " / "@ + allocation + " epoch allocation"@,
        ShownBalance::Diem => "DIEM "@ + diem + " remaining"@,
        ShownBalance::Nothing => "No Venice API balance available"@,
    }
}

/// The description of a balance, for amounts with two decimals each.
pub fn describe_balance(shown: ShownBalance, diem: &str, usd: &str, allocation: &str) -> (r: String)
    ensures
        r@ == balance_line(shown, diem@, usd@, allocation@),
{
    match shown {
        ShownBalance::Unavailable => "Balance unavailable for API calls".to_owned(),
        ShownBalance::Dollars => {
            let mut r = "$".to_owned();
            r.append(usd);
            r.append(" USD remaining");
            r
        },
        ShownBalance::Epoch => {
            let mut r = "DIEM ".to_owned();
            r.append(diem);
            r.append(" / ");
            r.append(allocation);
            r.append(" epoch allocation");
            r
        },
        ShownBalance::Diem => {
            let mut r = "DIEM ".to_owned();
            r.append(diem);
            r.append(" remaining");
            r
        },
        ShownBalance::Nothing => "No Venice API balance available".to_owned(),
    }
}

/// The percentage that a shown balance fixes.
pub open spec fn shown_percentage(shown: ShownBalance) -> Option<u64> {
    match shown {
        ShownBalance::Unavailable | ShownBalance::Nothing => Some(100u64),
        ShownBalance::Dollars | ShownBalance::Diem => Some(0u64),
        ShownBalance::Epoch => None,
    }
}

/// The used percentage of a balance that is not shown against an allocation.
pub fn fixed_percentage(shown: ShownBalance) -> (r: Option<u64>)
    ensures
        r == shown_percentage(shown),
{
    match shown {
        ShownBalance::Unavailable => Some(100),
        ShownBalance::Nothing => Some(100),
        ShownBalance::Dollars => Some(0),
        ShownBalance::Diem => Some(0),
        ShownBalance::Epoch => None,
    }
}

/// An account that cannot be charged shows no balance, whatever it holds.
pub proof fn law_unavailable_shows_nothing(
    currency: Option<Seq<char>>,
    diem: Option<bool>,
    usd: Option<bool>,
    allocation: Option<bool>,
)
    ensures
        shown_balance(false, currency, diem, usd, allocation) == ShownBalance::Unavailable,
{
}

/// The reading of a balance, for the texts of its amounts. The percentage is left
/// open where it is measured.
pub open spec fn balance_sample(
    fetched_at: Timestamp,
    shown: ShownBalance,
    diem: Seq<char>,
    usd: Seq<char>,
    allocation: Seq<char>,
) -> SampleView {
    SampleView {
        primary: Some(
            WindowView {
                used: match shown_percentage(shown) {
                    Some(percent) => Some(decimal::whole(percent)),
                    None => None,
                },
                minutes: None,
                resets_at: None,
                description: Some(balance_line(shown, diem, usd, allocation)),
            },
        ),
        ..usage::empty_sample(ProviderId::Venice, fetched_at, "venice"@, "api"@)
    }
}

/// The reading of a balance, for the texts of its amounts.
pub fn normalize(
    fetched_at: Timestamp,
    shown: ShownBalance,
    diem: &str,
    usd: &str,
    allocation: &str,
) -> (r: UsageSample)
    ensures
        r.value() == balance_sample(fetched_at, shown, diem@, usd@, allocation@),
{
    let used = match fixed_percentage(shown) {
        Some(percent) => Some(Decimal::of(percent)),
        None => None,
    };
    let mut sample = UsageSample::empty(ProviderId::Venice, fetched_at, "venice", "api");
    sample.primary = Some(
        RateWindow {
            used,
            minutes: None,
            resets_at: None,
            description: Some(describe_balance(shown, diem, usd, allocation)),
        },
    );
    sample
}

/// Ceilings of this adapter's transport.
pub fn transport_config() -> (r: Result<TransportConfig, ClassifiedError>)
    ensures
        r == Ok::<TransportConfig, ClassifiedError>(
            transport::ceilings(5, 20, MAX_RESPONSE_BYTES, 3, retry::no_retry()),
        ),
        r->Ok_0.valid(),
{
    transport::bounded(5, 20, MAX_RESPONSE_BYTES, 3, RetryPolicy::none())
}

/// A balance is shown in dollars or in tokens only where there is some; dollars come
/// first where the account is billed in them, and the tokens first otherwise.
pub proof fn law_balances_shown_are_there(
    currency: Option<Seq<char>>,
    diem: Option<bool>,
    usd: Option<bool>,
    allocation: Option<bool>,
)
    ensures
        ({
            let shown = shown_balance(true, currency, diem, usd, allocation);
            &&& shown == ShownBalance::Dollars ==> usd == Some(true)
            &&& shown == ShownBalance::Diem ==> diem == Some(true)
            &&& shown == ShownBalance::Epoch ==> diem is Some && allocation == Some(true)
                && currency != Some("USD"@)
            &&& shown == ShownBalance::Nothing ==> usd != Some(true) && diem != Some(true)
            &&& currency == Some("USD"@) && usd == Some(true) ==> shown == ShownBalance::Dollars
            &&& currency != Some("USD"@) && diem == Some(true) ==> shown == ShownBalance::Diem
                || shown == ShownBalance::Epoch
            &&& shown != ShownBalance::Unavailable
            &&& shown == ShownBalance::Nothing <==> shown_percentage(shown) == Some(100u64)
        }),
        shown_balance(false, currency, diem, usd, allocation) == ShownBalance::Unavailable,
        shown_percentage(ShownBalance::Unavailable) == Some(100u64),
{
}

/// A response is read from the fields that name its parts.
pub proof fn law_balances_are_read_from_their_fields(payload: Tree)
    ensures
        response_of(payload) matches Some(read) ==> {
            &&& json::field(payload, "canConsume"@) == Some(Tree::Bool(read.can_consume))
            &&& json::field(payload, "balances"@) matches Some(balances)
            &&& amount_if_any(json::field(balances, "diem"@)) == Some(read.diem)
            &&& amount_if_any(json::field(balances, "usd"@)) == Some(read.usd)
            &&& amount_if_any(json::field(payload, "diemEpochAllocation"@)) == Some(read.allocation)
        },
{
}

} // verus!
