//! The settings of the gateway.

use crate::text;
use vstd::prelude::*;

verus! {

/// The address that the gateway listens on where none is set.
pub const DEFAULT_BIND_ADDR: &'static str = "127.0.0.1:3000";

/// The address of chat3 where none is set.
pub const DEFAULT_CHAT3_BASE_URL: &'static str = "https://chat3.scut.edu.cn/api";

/// The time limit of a request to chat3, in seconds, where none is set.
pub const DEFAULT_REQUEST_TIMEOUT_SECS: u64 = 120;

/// How often a plan is asked for again where nothing is set.
pub const DEFAULT_PLANNER_REPAIR_ATTEMPTS: usize = 1;

/// The settings of the gateway.
#[derive(Clone, Debug)]
pub struct Config {
    pub bind_addr: String,
    pub chat3_base_url: String,
    /// The time limit of a request to chat3, in seconds.
    pub request_timeout_secs: u64,
    /// How often a plan that was refused is asked for again.
    pub planner_repair_attempts: usize,
}

/// A text without the slashes that it ends with.
pub open spec fn without_slashes(url: Seq<char>) -> Seq<char>
    decreases url.len(),
{
    if url.len() > 0 && url.last() == '/' {
        without_slashes(url.drop_last())
    } else {
        url
    }
}

/// The number that a setting spells, or `default` where it is missing or
/// spells none that is at most `max`.
pub open spec fn number_or(setting: Option<Seq<char>>, max: int, default: int) -> int {
    match setting {
        Some(spelled) => match text::parse_unsigned(spelled, max) {
            Some(number) => number,
            None => default,
        },
        None => default,
    }
}

/// A setting, or `default` where it is missing.
pub open spec fn text_or(setting: Option<Seq<char>>, default: Seq<char>) -> Seq<char> {
    match setting {
        Some(chars) => chars,
        None => default,
    }
}

/// No address of chat3 that the settings hold ends with a slash, and the
/// settings' own address begins with it: only slashes have gone.
pub proof fn law_base_url_has_no_last_slash(url: Seq<char>)
    ensures
        without_slashes(url).len() > 0 ==> without_slashes(url).last() != '/',
        without_slashes(url).len() <= url.len(),
        without_slashes(url) == url.take(without_slashes(url).len() as int),
        forall|i: int| without_slashes(url).len() <= i < url.len() ==> url[i] == '/',
    decreases url.len(),
{
    if url.len() > 0 && url.last() == '/' {
        law_base_url_has_no_last_slash(url.drop_last());
        let kept = without_slashes(url);
        assert(url.drop_last().take(kept.len() as int) =~= url.take(kept.len() as int));
        assert forall|i: int| kept.len() <= i < url.len() implies url[i] == '/' by {
            if i < url.len() - 1 {
                assert(url.drop_last()[i] == '/');
            }
        }
    } else {
        assert(url.take(url.len() as int) =~= url);
    }
}

/// A text without the slashes that it ends with.
fn strip_slashes(url: &str) -> (stripped: String)
    ensures
        stripped@ == without_slashes(url@),
{
    let chars = text::chars_of(url);
    let mut end: usize = chars.len();
    assert(url@.take(end as int) =~= url@);
    while end > 0 && chars[end - 1] == '/'
        invariant
            end <= chars@.len(),
            chars@ == url@,
            without_slashes(url@) == without_slashes(url@.take(end as int)),
        decreases end,
    {
        assert(url@.take(end as int).drop_last() =~= url@.take(end - 1));
        end = end - 1;
    }
    let stripped = text::text_of(chars.as_slice(), 0, end);
    assert(stripped@ =~= url@.take(end as int));
    stripped
}

/// The number that a setting spells.
fn read_number(setting: Option<String>, max: u64, default: u64) -> (number: u64)
    ensures
        number == number_or(setting.deep_view(), max as int, default as int),
{
    match setting {
        Some(spelled) => match text::unsigned_of(spelled.as_str(), max) {
            Some(number) => number,
            None => default,
        },
        None => default,
    }
}

impl Config {
    /// The settings that the given values make, each of them as its variable
    /// of the environment holds it: `BIND_ADDR`, `CHAT3_BASE_URL`,
    /// `REQUEST_TIMEOUT_SECS` and `PLANNER_REPAIR_ATTEMPTS`.
    pub fn from_vars(
        bind_addr: Option<String>,
        chat3_base_url: Option<String>,
        request_timeout_secs: Option<String>,
        planner_repair_attempts: Option<String>,
    ) -> (config: Self)
        ensures
            config.bind_addr@ == text_or(bind_addr.deep_view(), "127.0.0.1:3000"@),
            config.chat3_base_url@ == without_slashes(
                text_or(chat3_base_url.deep_view(), "https://chat3.scut.edu.cn/api"@),
            ),
            config.request_timeout_secs == number_or(
                request_timeout_secs.deep_view(),
                u64::MAX as int,
                120,
            ),
            config.planner_repair_attempts == number_or(
                planner_repair_attempts.deep_view(),
                usize::MAX as int,
                1,
            ),
    {
        let url = match chat3_base_url {
            Some(url) => url,
            None => DEFAULT_CHAT3_BASE_URL.to_owned(),
        };
        let attempts: u64 = read_number(
            planner_repair_attempts,
            usize::MAX as u64,
            DEFAULT_PLANNER_REPAIR_ATTEMPTS as u64,
        );
        Config {
            bind_addr: match bind_addr {
                Some(addr) => addr,
                None => DEFAULT_BIND_ADDR.to_owned(),
            },
            chat3_base_url: strip_slashes(url.as_str()),
            request_timeout_secs: read_number(
                request_timeout_secs,
                u64::MAX,
                DEFAULT_REQUEST_TIMEOUT_SECS,
            ),
            planner_repair_attempts: attempts as usize,
        }
    }
}

/// A number that is set counts, unless it is above the limit; where nothing is
/// set, or no number, the default does.
pub proof fn law_number_that_is_set_counts(n: nat, max: int, default: int, other: Seq<char>)
    ensures
        n <= max ==> number_or(Some(text::decimal(n as int)), max, default) == n,
        n > max ==> number_or(Some(text::decimal(n as int)), max, default) == default,
        number_or(None, max, default) == default,
        text::parse_unsigned(other, max) is None ==> number_or(Some(other), max, default)
            == default,
        text::parse_unsigned(other, max) matches Some(number) ==> number_or(
            Some(other),
            max,
            default,
        ) == number,
{
    text::law_number_is_read_back(n, 0, max);
}

/// A text that is set counts as it is, whatever it is; where none is set, the
/// default does.
pub proof fn law_text_that_is_set_counts(set: Seq<char>, default: Seq<char>)
    ensures
        text_or(Some(set), default) == set,
        text_or(None, default) == default,
{
}

} // verus!
