//! The runtime configuration of a sandbox, read from two annotations of the pod.

use crate::error::{Failure, StartError};
use crate::keyed::KeyedMap;
use vstd::prelude::*;

verus! {

/// The annotation that caps the requests which the sandbox serves at once.
pub const MAX_CONNCURRENT_REQUESTS_ANNOTATION_KEY: &'static str =
    "alpha.wasi.krustlet.dev/max-concurrent-requests";

/// The annotation that lists the domains which the sandbox may reach.
pub const ALLOWED_DOMAINS_ANNOTATION_KEY: &'static str = "alpha.wasi.krustlet.dev/allowed-domains";

/// The network and capacity policy of a sandbox. A field that is `None` leaves
/// the matter to the engine: any domain may be reached, and the engine's own
/// limit holds.
#[derive(Debug, Clone, PartialEq, Eq)]
pub struct RuntimeConfig {
    pub allowed_domains: Option<Vec<String>>,
    pub max_concurrent_requests: Option<u32>,
}

pub struct RuntimeConfigView {
    pub allowed_domains: Option<Seq<Seq<char>>>,
    pub max_concurrent_requests: Option<u32>,
}

impl View for RuntimeConfig {
    type V = RuntimeConfigView;

    open spec fn view(&self) -> RuntimeConfigView {
        RuntimeConfigView {
            allowed_domains: match self.allowed_domains {
                Some(domains) => Some(domains.deep_view()),
                None => None,
            },
            max_concurrent_requests: self.max_concurrent_requests,
        }
    }
}

impl Default for RuntimeConfig {
    fn default() -> (config: Self)
        ensures
            config@ == unrestricted(),
    {
        RuntimeConfig { allowed_domains: None, max_concurrent_requests: None }
    }
}

/// The configuration with both fields left to the engine.
pub open spec fn unrestricted() -> RuntimeConfigView {
    RuntimeConfigView { allowed_domains: None, max_concurrent_requests: None }
}

/// What `serde_json::from_str` makes of `text` when a list of strings is asked
/// for: the list, or the text of its error.
pub uninterp spec fn json_string_list(text: Seq<char>) -> Result<Seq<Seq<char>>, Seq<char>>;

/// Calls `serde_json::from_str` for a `Vec<String>`. The contract gives the
/// outcome a name, the error taken as the text that it displays, and claims
/// nothing else of it.
#[verifier::external_body]
fn parse_string_list(text: &str) -> (r: Result<Vec<String>, String>)
    ensures
        match r {
            Ok(list) => json_string_list(text@) == Ok::<Seq<Seq<char>>, Seq<char>>(
                list.deep_view(),
            ),
            Err(cause) => json_string_list(text@) == Err::<Seq<Seq<char>>, Seq<char>>(cause@),
        },
{
    match serde_json::from_str::<Vec<String>>(text) {
        Ok(list) => Ok(list),
        Err(e) => Err(e.to_string()),
    }
}

/// The number that a string of decimal digits stands for.
pub open spec fn digits_value(digits: Seq<char>) -> nat
    decreases digits.len(),
{
    if digits.len() == 0 {
        0
    } else {
        (10 * digits_value(digits.drop_last()) + (digits.last() as nat - '0' as nat)) as nat
    }
}

/// Every character is one of `0` to `9`.
pub open spec fn all_digits(digits: Seq<char>) -> bool {
    forall|i: int| 0 <= i < digits.len() ==> '0' <= #[trigger] digits[i] <= '9'
}

/// The number that `text` stands for as a base-10 `u32`: an optional `+`, then
/// one digit or more and nothing else, with a value that fits.
pub open spec fn decimal_u32(text: Seq<char>) -> Option<u32> {
    let digits = if text.len() > 0 && text[0] == '+' {
        text.subrange(1, text.len() as int)
    } else {
        text
    };
    if digits.len() > 0 && all_digits(digits) && digits_value(digits) <= u32::MAX {
        Some(digits_value(digits) as u32)
    } else {
        None
    }
}

/// The text of the error with which `str::parse` refuses `text` as a `u32`.
pub uninterp spec fn integer_parse_failure(text: Seq<char>) -> Seq<char>;

/// What parsing `text` as a base-10 `u32` gives.
pub open spec fn parsed_limit(text: Seq<char>) -> Result<u32, Seq<char>> {
    match decimal_u32(text) {
        Some(n) => Ok(n),
        None => Err(integer_parse_failure(text)),
    }
}

/// Calls `str::parse` for a `u32`. The contract claims what std documents of
/// it: a text is accepted exactly if it is an optional `+` followed by decimal
/// digits whose value fits, and the result is that value. The error is taken as
/// the text that it displays, which is only given a name.
#[verifier::external_body]
fn parse_limit(text: &str) -> (r: Result<u32, String>)
    ensures
        match r {
            Ok(n) => decimal_u32(text@) == Some(n),
            Err(cause) => decimal_u32(text@) is None && cause@ == integer_parse_failure(text@),
        },
{
    match text.parse::<u32>() {
        Ok(n) => Ok(n),
        Err(e) => Err(e.to_string()),
    }
}

/// The configuration that two parsed annotations give, each absent (`None`),
/// malformed (`Err` with the cause) or well formed. A malformed list of
/// allowed domains is reported before a malformed limit.
pub open spec fn decided_config(
    domains: Option<Result<Seq<Seq<char>>, Seq<char>>>,
    limit: Option<Result<u32, Seq<char>>>,
) -> Result<RuntimeConfigView, Failure> {
    match (domains, limit) {
        (Some(Err(cause)), _) => Err(
            Failure::AnnotationParseError { key: ALLOWED_DOMAINS_ANNOTATION_KEY@, cause },
        ),
        (_, Some(Err(cause))) => Err(
            Failure::AnnotationParseError { key: MAX_CONNCURRENT_REQUESTS_ANNOTATION_KEY@, cause },
        ),
        _ => Ok(
            RuntimeConfigView {
                allowed_domains: match domains {
                    Some(Ok(list)) => Some(list),
                    _ => None,
                },
                max_concurrent_requests: match limit {
                    Some(Ok(n)) => Some(n),
                    _ => None,
                },
            },
        ),
    }
}

/// The views of a parsed list of allowed domains.
pub open spec fn domains_view(domains: Option<Result<Vec<String>, String>>) -> Option<
    Result<Seq<Seq<char>>, Seq<char>>,
> {
    match domains {
        Some(Ok(list)) => Some(Ok(list.deep_view())),
        Some(Err(cause)) => Some(Err(cause@)),
        None => None,
    }
}

/// The views of a parsed limit.
pub open spec fn limit_view(limit: Option<Result<u32, String>>) -> Option<
    Result<u32, Seq<char>>,
> {
    match limit {
        Some(Ok(n)) => Some(Ok(n)),
        Some(Err(cause)) => Some(Err(cause@)),
        None => None,
    }
}

/// Builds the configuration from the two annotations as they were parsed.
pub fn decide_config(
    domains: Option<Result<Vec<String>, String>>,
    limit: Option<Result<u32, String>>,
) -> (r: Result<RuntimeConfig, StartError>)
    ensures
        match r {
            Ok(config) => decided_config(domains_view(domains), limit_view(limit)) == Ok::<
                RuntimeConfigView,
                Failure,
            >(config@),
            Err(e) => decided_config(domains_view(domains), limit_view(limit)) == Err::<
                RuntimeConfigView,
                Failure,
            >(e@),
        },
{
    let mut config = RuntimeConfig::default();
    match domains {
        Some(Ok(list)) => {
            config.allowed_domains = Some(list);
        },
        Some(Err(cause)) => {
            return Err(
                StartError::AnnotationParseError {
                    key: ALLOWED_DOMAINS_ANNOTATION_KEY.to_owned(),
                    cause,
                },
            );
        },
        None => {},
    }
    match limit {
        Some(Ok(n)) => {
            config.max_concurrent_requests = Some(n);
        },
        Some(Err(cause)) => {
            return Err(
                StartError::AnnotationParseError {
                    key: MAX_CONNCURRENT_REQUESTS_ANNOTATION_KEY.to_owned(),
                    cause,
                },
            );
        },
        None => {},
    }
    Ok(config)
}

/// What the annotations hold for the two keys, parsed.
pub open spec fn config_of(annotations: Map<Seq<char>, String>) -> Result<
    RuntimeConfigView,
    Failure,
> {
    decided_config(
        if annotations.contains_key(ALLOWED_DOMAINS_ANNOTATION_KEY@) {
            Some(json_string_list(annotations[ALLOWED_DOMAINS_ANNOTATION_KEY@]@))
        } else {
            None
        },
        if annotations.contains_key(MAX_CONNCURRENT_REQUESTS_ANNOTATION_KEY@) {
            Some(parsed_limit(annotations[MAX_CONNCURRENT_REQUESTS_ANNOTATION_KEY@]@))
        } else {
            None
        },
    )
}

/// The two annotations are distinct keys.
pub proof fn lemma_annotation_keys_differ()
    ensures
        ALLOWED_DOMAINS_ANNOTATION_KEY@ != MAX_CONNCURRENT_REQUESTS_ANNOTATION_KEY@,
{
    reveal_strlit("alpha.wasi.krustlet.dev/allowed-domains");
    reveal_strlit("alpha.wasi.krustlet.dev/max-concurrent-requests");
    assert(ALLOWED_DOMAINS_ANNOTATION_KEY@.len() == 39);
    assert(MAX_CONNCURRENT_REQUESTS_ANNOTATION_KEY@.len() == 47);
}

/// Each annotation decides its own field and no other. Where none of those
/// present is malformed, a field whose annotation is absent is unset, and a
/// field whose annotation is present holds the parsed value, whatever the
/// other annotation holds.
pub proof fn lemma_annotations_are_independent(annotations: Map<Seq<char>, String>)
    ensures
        config_of(annotations) is Ok <==> {
            &&& annotations.contains_key(ALLOWED_DOMAINS_ANNOTATION_KEY@) ==> json_string_list(
                annotations[ALLOWED_DOMAINS_ANNOTATION_KEY@]@,
            ) is Ok
            &&& annotations.contains_key(MAX_CONNCURRENT_REQUESTS_ANNOTATION_KEY@) ==> decimal_u32(
                annotations[MAX_CONNCURRENT_REQUESTS_ANNOTATION_KEY@]@,
            ) is Some
        },
        config_of(annotations) matches Ok(config) ==> {
            &&& config.allowed_domains == (if annotations.contains_key(
                ALLOWED_DOMAINS_ANNOTATION_KEY@,
            ) {
                Some(json_string_list(annotations[ALLOWED_DOMAINS_ANNOTATION_KEY@]@)->Ok_0)
            } else {
                None
            })
            &&& config.max_concurrent_requests == (if annotations.contains_key(
                MAX_CONNCURRENT_REQUESTS_ANNOTATION_KEY@,
            ) {
                decimal_u32(annotations[MAX_CONNCURRENT_REQUESTS_ANNOTATION_KEY@]@)
            } else {
                None
            })
        },
        !annotations.contains_key(ALLOWED_DOMAINS_ANNOTATION_KEY@) && !annotations.contains_key(
            MAX_CONNCURRENT_REQUESTS_ANNOTATION_KEY@,
        ) ==> config_of(annotations) == Ok::<RuntimeConfigView, Failure>(unrestricted()),
{
}

/// A malformed annotation is rejected, each by itself: a value of the allowed
/// domains that is no list of strings, and a limit that is no base-10 number,
/// each give an error that names the annotation and the cause, and the allowed
/// domains are reported first. Nothing else is ever rejected.
pub proof fn lemma_malformed_annotation_is_rejected(annotations: Map<Seq<char>, String>)
    ensures
        annotations.contains_key(ALLOWED_DOMAINS_ANNOTATION_KEY@) && json_string_list(
            annotations[ALLOWED_DOMAINS_ANNOTATION_KEY@]@,
        ) is Err ==> config_of(annotations) == Err::<RuntimeConfigView, Failure>(
            Failure::AnnotationParseError {
                key: ALLOWED_DOMAINS_ANNOTATION_KEY@,
                cause: json_string_list(annotations[ALLOWED_DOMAINS_ANNOTATION_KEY@]@)->Err_0,
            },
        ),
        annotations.contains_key(MAX_CONNCURRENT_REQUESTS_ANNOTATION_KEY@) && decimal_u32(
            annotations[MAX_CONNCURRENT_REQUESTS_ANNOTATION_KEY@]@,
        ) is None ==> config_of(annotations) is Err,
        annotations.contains_key(MAX_CONNCURRENT_REQUESTS_ANNOTATION_KEY@) && decimal_u32(
            annotations[MAX_CONNCURRENT_REQUESTS_ANNOTATION_KEY@]@,
        ) is None && !(annotations.contains_key(ALLOWED_DOMAINS_ANNOTATION_KEY@)
            && json_string_list(annotations[ALLOWED_DOMAINS_ANNOTATION_KEY@]@) is Err)
            ==> config_of(annotations) == Err::<RuntimeConfigView, Failure>(
            Failure::AnnotationParseError {
                key: MAX_CONNCURRENT_REQUESTS_ANNOTATION_KEY@,
                cause: integer_parse_failure(
                    annotations[MAX_CONNCURRENT_REQUESTS_ANNOTATION_KEY@]@,
                ),
            },
        ),
        config_of(annotations) matches Err(failure) ==> failure is AnnotationParseError,
{
}

/// Reads the runtime configuration from the annotations of a pod.
///
/// An annotation that is absent leaves its field unset. One that is present
/// sets its field to the parsed value, or fails the whole with the key and the
/// cause; the allowed domains are looked at first.
pub fn runtime_config(annotations: &KeyedMap<String, String>) -> (r: Result<
    RuntimeConfig,
    StartError,
>)
    ensures
        match r {
            Ok(config) => config_of(annotations@) == Ok::<RuntimeConfigView, Failure>(config@),
            Err(e) => config_of(annotations@) == Err::<RuntimeConfigView, Failure>(e@),
        },
{
    let domains = match annotations.get(&ALLOWED_DOMAINS_ANNOTATION_KEY.to_owned()) {
        Some(text) => Some(parse_string_list(text.as_str())),
        None => None,
    };
    let limit = match annotations.get(&MAX_CONNCURRENT_REQUESTS_ANNOTATION_KEY.to_owned()) {
        Some(text) => Some(parse_limit(text.as_str())),
        None => None,
    };
    decide_config(domains, limit)
}

} // verus!
