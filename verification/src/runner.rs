//! Names, checks and decisions of the invoker test runner.

use crate::json::{first_item, member, text_of, Json, JsonView};
use crate::text::{decimal, prefixed, push_char, push_decimal};
use rand::Rng;
use vstd::prelude::*;

verus! {

#[verifier::external_type_specification]
#[verifier::external_body]
pub struct ExThreadRng(rand::rngs::ThreadRng);

/// The generator of the current thread (`rand::thread_rng`).
#[verifier::external_body]
fn thread_rng() -> rand::rngs::ThreadRng {
    rand::thread_rng()
}

/// Whether a character is an ASCII letter or digit.
pub open spec fn is_alphanumeric(c: char) -> bool {
    ||| 'A' <= c && c <= 'Z'
    ||| 'a' <= c && c <= 'z'
    ||| '0' <= c && c <= '9'
}

/// Draws one character from `rand::distributions::Alphanumeric`, whose
/// source picks a byte of `A-Z`, `a-z` or `0-9`; the contract claims only
/// that the character is one of these.
#[verifier::external_body]
fn sample_alphanumeric(rng: &mut rand::rngs::ThreadRng) -> (c: char)
    ensures
        is_alphanumeric(c),
{
    rng.sample(rand::distributions::Alphanumeric) as char
}

/// A random suffix: five ASCII letters or digits.
pub open spec fn is_random_suffix(s: Seq<char>) -> bool {
    &&& s.len() == 5
    &&& forall|i: int| 0 <= i < s.len() ==> is_alphanumeric(#[trigger] s[i])
}

/// The suffix made of the drawn characters, in the order they were drawn.
pub fn suffix_from_draws(draws: &Vec<char>) -> (r: String)
    ensures
        r@ == draws@,
{
    let mut base = String::new();
    let mut i: usize = 0;
    while i < draws.len()
        invariant
            0 <= i <= draws.len(),
            base@ == draws@.take(i as int),
        decreases draws.len() - i,
    {
        push_char(&mut base, draws[i]);
        i = i + 1;
        assert(base@ =~= draws@.take(i as int));
    }
    assert(draws@.take(i as int) =~= draws@);
    base
}

/// Five random ASCII letters or digits.
pub fn rand_suf() -> (r: String)
    ensures
        is_random_suffix(r@),
{
    let mut draws: Vec<char> = Vec::new();
    let mut rng = thread_rng();
    let mut i: usize = 0;
    while i < 5
        invariant
            0 <= i <= 5,
            draws@.len() == i,
            forall|j: int| 0 <= j < i ==> is_alphanumeric(#[trigger] draws@[j]),
        decreases 5 - i,
    {
        let c = sample_alphanumeric(&mut rng);
        draws.push(c);
        i = i + 1;
    }
    suffix_from_draws(&draws)
}

/// `base` followed by `-` and a random suffix.
pub open spec fn is_randomized(r: Seq<char>, base: Seq<char>) -> bool {
    &&& r.len() == base.len() + 6
    &&& r == base + seq!['-'] + r.skip(base.len() + 1int)
    &&& is_random_suffix(r.skip(base.len() + 1int))
}

/// `base` with a dash and a random suffix appended.
pub fn randomize(base: &str) -> (r: String)
    ensures
        is_randomized(r@, base@),
{
    let mut r = String::from_str(base);
    push_char(&mut r, '-');
    let suffix = rand_suf();
    r.append(suffix.as_str());
    assert(r@.skip(base@.len() + 1int) =~= suffix@);
    assert(r@ =~= base@ + seq!['-'] + r@.skip(base@.len() + 1int));
    r
}

/// The tag of the base image built for a test case.
pub fn base_image_tag(test_name: &str) -> (r: String)
    ensures
        r@ == "jjs-invoker-tests-base-image-"@ + test_name@,
{
    prefixed("jjs-invoker-tests-base-image-", test_name)
}

/// The name of the environment that runs a test case.
pub fn environment_name(test_name: &str) -> (r: String)
    ensures
        is_randomized(r@, "jjs-invoker-test-suite-"@ + test_name@),
{
    let base = prefixed("jjs-invoker-test-suite-", test_name);
    randomize(base.as_str())
}

/// The directory that the outputs of a test case are exported to.
pub fn outputs_export_path(test_name: &str) -> (r: String)
    ensures
        is_randomized(r@, "/tmp/jjs-invoker-test-"@ + test_name@ + "-outputs"@),
{
    let mut base = prefixed("/tmp/jjs-invoker-test-", test_name);
    base.append("-outputs");
    randomize(base.as_str())
}

/// The file whose creation approves the start of a test.
pub fn approval_file_name() -> (r: String)
    ensures
        r@.len() == "start-test-"@.len() + 5,
        r@ == "start-test-"@ + r@.skip("start-test-"@.len() as int),
        is_random_suffix(r@.skip("start-test-"@.len() as int)),
{
    let suffix = rand_suf();
    let r = prefixed("start-test-", suffix.as_str());
    assert(r@.skip("start-test-"@.len() as int) =~= suffix@);
    r
}

/// The execution endpoint of an invoker listening on `port`.
pub fn invoker_exec_url(port: u16) -> (r: String)
    ensures
        r@ == "http://localhost:"@ + decimal(port as nat) + "/exec"@,
{
    let mut r = String::from_str("http://localhost:");
    push_decimal(&mut r, port as u64);
    r.append("/exec");
    r
}

/// `/0/Id` of an image description without its `sha256:` prefix.
pub open spec fn image_hash_of(description: JsonView) -> Option<Seq<char>> {
    match first_item(description) {
        Some(image) => match text_of(member(image, "Id"@)) {
            Some(id) => if id.len() >= "sha256:"@.len() && id.take("sha256:"@.len() as int)
                == "sha256:"@ {
                Some(id.skip("sha256:"@.len() as int))
            } else {
                None
            },
            None => None,
        },
        None => None,
    }
}

/// The hash of an image is exactly its `/0/Id` with the `sha256:` prefix
/// taken off: a hash `h` is given just when the Id is `sha256:` followed by
/// `h`.
pub proof fn lemma_image_hash_is_id_without_prefix(description: JsonView, h: Seq<char>)
    ensures
        image_hash_of(description) == Some(h) <==> (match first_item(description) {
            Some(image) => text_of(member(image, "Id"@)) == Some("sha256:"@ + h),
            None => false,
        }),
{
    reveal_strlit("sha256:");
    if let Some(image) = first_item(description) {
        if let Some(id) = text_of(member(image, "Id"@)) {
            let p = "sha256:"@;
            if id == p + h {
                assert(id.take(p.len() as int) =~= p);
                assert(id.skip(p.len() as int) =~= h);
            }
            if image_hash_of(description) == Some(h) {
                assert(id =~= p + h);
            }
        }
    }
}

/// The hash of an image from its description (`docker inspect` output).
pub fn image_hash(description: &Json) -> (r: Option<String>)
    ensures
        match r {
            Some(h) => image_hash_of(description@) == Some(h@),
            None => image_hash_of(description@) is None,
        },
{
    let id = match description.first_item() {
        Some(image) => match image.member("Id") {
            Some(Json::Str(id)) => id,
            _ => {
                return None;
            },
        },
        None => {
            return None;
        },
    };
    let prefix = String::from_str("sha256:");
    let p = prefix.as_str().unicode_len();
    let n = id.as_str().unicode_len();
    if n < p {
        return None;
    }
    let head = String::from_str(id.as_str().substring_char(0, p));
    if head == prefix {
        assert(head@ =~= id@.take(p as int));
        let rest = String::from_str(id.as_str().substring_char(p, n));
        assert(rest@ =~= id@.skip(p as int));
        Some(rest)
    } else {
        assert(head@ =~= id@.take(p as int));
        None
    }
}

/// How the runner treats the status of the invoker's response.
#[derive(Debug, PartialEq, Eq)]
pub enum ResponseKind {
    /// `4xx`: the request was refused.
    ClientError,
    /// `5xx`: the invocation faulted.
    ServerError,
    /// Anything else: the response carries the outputs.
    Completed,
}

/// The kind of an HTTP status code, as `StatusCode::is_client_error` and
/// `StatusCode::is_server_error` tell them apart.
pub fn classify_status(code: u16) -> (r: ResponseKind)
    ensures
        400 <= code < 500 ==> r == ResponseKind::ClientError,
        500 <= code < 600 ==> r == ResponseKind::ServerError,
        code < 400 || code >= 600 ==> r == ResponseKind::Completed,
{
    if 400 <= code && code < 500 {
        ResponseKind::ClientError
    } else if 500 <= code && code < 600 {
        ResponseKind::ServerError
    } else {
        ResponseKind::Completed
    }
}

/// How many times the runner asks the environment for its health.
pub const READINESS_ATTEMPTS: u32 = 10;

/// How long, in milliseconds, the runner waits between two health checks.
pub const READINESS_POLL_MILLIS: u64 = 3000;

/// Whether every health status reads `healthy`.
pub fn all_healthy(statuses: &Vec<String>) -> (r: bool)
    ensures
        r == forall|i: int| 0 <= i < statuses@.len() ==> #[trigger] statuses@[i]@ == "healthy"@,
{
    let healthy = String::from_str("healthy");
    let mut i: usize = 0;
    while i < statuses.len()
        invariant
            0 <= i <= statuses.len(),
            healthy@ == "healthy"@,
            forall|j: int| 0 <= j < i ==> #[trigger] statuses@[j]@ == "healthy"@,
        decreases statuses.len() - i,
    {
        if statuses[i] != healthy {
            return false;
        }
        i = i + 1;
    }
    true
}


/// What the runner does after the health check numbered `attempt` (from 0).
#[derive(Debug, PartialEq, Eq)]
pub enum ReadinessAction {
    /// Every container is healthy: go on with the test.
    Ready,
    /// Not yet healthy: wait `READINESS_POLL_MILLIS` and check again.
    SleepThenRetry,
    /// Not yet healthy and no check is left: wait `READINESS_POLL_MILLIS`,
    /// then give up.
    SleepThenGiveUp,
}

/// The decision after health check `attempt` reported `statuses`.
pub fn readiness_after_check(attempt: u32, statuses: &Vec<String>) -> (r: ReadinessAction)
    requires
        attempt < READINESS_ATTEMPTS,
    ensures
        (forall|i: int| 0 <= i < statuses@.len() ==> #[trigger] statuses@[i]@ == "healthy"@)
            ==> r == ReadinessAction::Ready,
        !(forall|i: int| 0 <= i < statuses@.len() ==> #[trigger] statuses@[i]@ == "healthy"@)
            ==> r == (if attempt + 1 < READINESS_ATTEMPTS {
            ReadinessAction::SleepThenRetry
        } else {
            ReadinessAction::SleepThenGiveUp
        }),
{
    if all_healthy(statuses) {
        ReadinessAction::Ready
    } else if attempt + 1 < READINESS_ATTEMPTS {
        ReadinessAction::SleepThenRetry
    } else {
        ReadinessAction::SleepThenGiveUp
    }
}

} // verus!
