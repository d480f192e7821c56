//! The benchmark applications: what each is called, which feature
//! dimensions it exercises, which marker ends its output, and how its output
//! is turned into a result.

use vstd::prelude::*;
use vstd::string::*;

use crate::config::FeatureUse;
use crate::text::byte_views;

verus! {

/// The benchmark applications that the harness can run.
#[derive(Clone, Copy, Debug, PartialEq, Eq, Structural)]
pub enum Benchmark {
    Rtos,
    Latency,
    CoreMark,
    ProfileSes,
    ProfileRtos,
}

/// The output of a benchmark could not be turned into a result.
#[derive(Debug)]
pub enum ProcessOutputError {
    /// The output holds no result between the start and end markers.
    NoEnclosedOutput,
    /// The benchmark itself reported an error; these are its words.
    CoreMark(Vec<u8>),
    /// The output holds no score.
    NoScore,
}

/// The marker that every benchmark's output ends with if the target runs
/// into an exception that nothing handles.
pub open spec fn unhandled_exception_marker() -> Seq<u8> {
    "unhandled exception".spec_bytes()
}

/// The pattern for a result that is enclosed by the start and end markers.
pub open spec fn enclosed_pattern() -> Seq<char> {
    "(?s).*%output-start\\s*(.*?)\\s*%output-end"@
}

/// The pattern for an error that CoreMark reports.
pub open spec fn coremark_error_pattern() -> Seq<char> {
    "ERROR! (.*)"@
}

/// The pattern for the score that CoreMark reports.
pub open spec fn coremark_score_pattern() -> Seq<char> {
    ".*CoreMark 1.0 : ([0-9.]+)"@
}

/// What the first capture group of `pattern` holds in the leftmost match of
/// `pattern` in `haystack`, as the `regex` crate finds it; `None` without a
/// match, and where the group takes no part in the match.
pub uninterp spec fn regex_first_group(pattern: Seq<char>, haystack: Seq<u8>) -> Option<Seq<u8>>;

/// Whether the `regex` crate accepts `pattern`: whether it can be compiled
/// under the crate's default settings.
pub uninterp spec fn regex_accepts(pattern: Seq<char>) -> bool;

/// The bytes of an optional vector.
pub open spec fn bytes_view(bytes: Option<Vec<u8>>) -> Option<Seq<u8>> {
    match bytes {
        Some(b) => Some(b@),
        None => None,
    }
}

/// `regex::bytes::Regex::new` on `pattern`, then `Regex::captures` on
/// `haystack` and `Captures::get(1)`. The outer `None` stands for a pattern
/// that the crate does not accept, which is a matter of the pattern alone.
#[verifier::external_body]
fn first_group(pattern: &str, haystack: &[u8]) -> (r: Option<Option<Vec<u8>>>)
    ensures
        r is Some <==> regex_accepts(pattern@),
        r matches Some(group) ==> bytes_view(group) == regex_first_group(pattern@, haystack@),
{
    match regex::bytes::Regex::new(pattern) {
        Ok(re) => Some(
            match re.captures(haystack) {
                Some(captures) => match captures.get(1) {
                    Some(group) => Some(group.as_bytes().to_vec()),
                    None => None,
                },
                None => None,
            },
        ),
        Err(_) => None,
    }
}

/// The result of a benchmark whose output holds its result between the
/// start and end markers, given what the pattern for that found.
pub open spec fn enclosed_result(group: Option<Seq<u8>>) -> Result<Option<Seq<u8>>, ErrorView> {
    match group {
        Some(result) => Ok(Some(result)),
        None => Err(ErrorView::NoEnclosedOutput),
    }
}

/// CoreMark's result as a JSON object.
pub open spec fn score_json(score: Seq<u8>) -> Seq<u8> {
    "{ \"score\": ".spec_bytes() + score + " }".spec_bytes()
}

/// The result of CoreMark, given what the patterns for an error and for the
/// score found: an error that the benchmark reports goes before any score.
pub open spec fn coremark_result(error: Option<Seq<u8>>, score: Option<Seq<u8>>) -> Result<
    Option<Seq<u8>>,
    ErrorView,
> {
    match error {
        Some(words) => Err(ErrorView::CoreMark(words)),
        None => match score {
            Some(score) => Ok(Some(score_json(score))),
            None => Err(ErrorView::NoScore),
        },
    }
}

/// An error as plain data.
pub enum ErrorView {
    NoEnclosedOutput,
    CoreMark(Seq<u8>),
    NoScore,
}

impl View for ProcessOutputError {
    type V = ErrorView;

    open spec fn view(&self) -> ErrorView {
        match self {
            ProcessOutputError::NoEnclosedOutput => ErrorView::NoEnclosedOutput,
            ProcessOutputError::CoreMark(words) => ErrorView::CoreMark(words@),
            ProcessOutputError::NoScore => ErrorView::NoScore,
        }
    }
}

/// A result of post-processing as plain data.
pub open spec fn result_view(r: Result<Option<Vec<u8>>, ProcessOutputError>) -> Result<
    Option<Seq<u8>>,
    ErrorView,
> {
    match r {
        Ok(bytes) => Ok(bytes_view(bytes)),
        Err(e) => Err(e@),
    }
}

/// Turns what the pattern for an enclosed result found into the result.
pub fn result_from_enclosed(group: Option<Vec<u8>>) -> (r: Result<
    Option<Vec<u8>>,
    ProcessOutputError,
>)
    ensures
        result_view(r) == enclosed_result(bytes_view(group)),
{
    match group {
        Some(result) => Ok(Some(result)),
        None => Err(ProcessOutputError::NoEnclosedOutput),
    }
}

/// Turns what the patterns for CoreMark's error and score found into the
/// result.
pub fn result_from_coremark(error: Option<Vec<u8>>, score: Option<Vec<u8>>) -> (r: Result<
    Option<Vec<u8>>,
    ProcessOutputError,
>)
    ensures
        result_view(r) == coremark_result(bytes_view(error), bytes_view(score)),
{
    match error {
        Some(words) => Err(ProcessOutputError::CoreMark(words)),
        None => match score {
            Some(score) => {
                let mut json = "{ \"score\": ".as_bytes_vec();
                let mut score = score;
                let mut tail = " }".as_bytes_vec();
                json.append(&mut score);
                json.append(&mut tail);
                Ok(Some(json))
            },
            None => Err(ProcessOutputError::NoScore),
        },
    }
}

impl Benchmark {
    /// The feature dimensions that the benchmark exercises.
    pub open spec fn spec_feature_use(self) -> FeatureUse {
        match self {
            Benchmark::Rtos | Benchmark::ProfileRtos => FeatureUse {
                shadow_exception_stacks: true,
                shadow_stacks: true,
                context_management: true,
                accel_raise_pri: true,
                icall_sanitizer: true,
            },
            Benchmark::Latency | Benchmark::ProfileSes => FeatureUse {
                shadow_exception_stacks: true,
                shadow_stacks: false,
                context_management: false,
                accel_raise_pri: false,
                icall_sanitizer: false,
            },
            Benchmark::CoreMark => FeatureUse {
                shadow_exception_stacks: false,
                shadow_stacks: true,
                context_management: false,
                accel_raise_pri: false,
                icall_sanitizer: true,
            },
        }
    }

    /// The feature dimensions that the benchmark exercises.
    pub fn feature_use(&self) -> (r: FeatureUse)
        ensures
            r == self.spec_feature_use(),
    {
        match self {
            Benchmark::Rtos | Benchmark::ProfileRtos => FeatureUse {
                shadow_exception_stacks: true,
                shadow_stacks: true,
                context_management: true,
                accel_raise_pri: true,
                icall_sanitizer: true,
            },
            Benchmark::Latency | Benchmark::ProfileSes => FeatureUse {
                shadow_exception_stacks: true,
                shadow_stacks: false,
                context_management: false,
                accel_raise_pri: false,
                icall_sanitizer: false,
            },
            Benchmark::CoreMark => FeatureUse {
                shadow_exception_stacks: false,
                shadow_stacks: true,
                context_management: false,
                accel_raise_pri: false,
                icall_sanitizer: true,
            },
        }
    }

    /// The name of the application, as the build tool and the built image
    /// have it.
    pub open spec fn spec_name(self) -> Seq<char> {
        match self {
            Benchmark::Rtos => "bench-rtos"@,
            Benchmark::Latency => "bench-latency"@,
            Benchmark::CoreMark => "bench-coremark"@,
            Benchmark::ProfileSes => "profile-ses"@,
            Benchmark::ProfileRtos => "profile-rtos"@,
        }
    }

    /// The name of the application.
    pub fn name(&self) -> (r: String)
        ensures
            r@ == self.spec_name(),
    {
        match self {
            Benchmark::Rtos => "bench-rtos".to_owned(),
            Benchmark::Latency => "bench-latency".to_owned(),
            Benchmark::CoreMark => "bench-coremark".to_owned(),
            Benchmark::ProfileSes => "profile-ses".to_owned(),
            Benchmark::ProfileRtos => "profile-rtos".to_owned(),
        }
    }

    /// The marker that ends the application's output.
    pub open spec fn spec_output_terminator(self) -> Seq<u8> {
        match self {
            Benchmark::Rtos => "Done!".spec_bytes(),
            Benchmark::CoreMark => "* portable_fini - system halted".spec_bytes(),
            _ => "%output-end".spec_bytes(),
        }
    }

    /// The marker that ends the application's output.
    pub fn output_terminator(&self) -> (r: Vec<u8>)
        ensures
            r@ == self.spec_output_terminator(),
    {
        match self {
            Benchmark::Rtos => "Done!".as_bytes_vec(),
            Benchmark::CoreMark => "* portable_fini - system halted".as_bytes_vec(),
            _ => "%output-end".as_bytes_vec(),
        }
    }

    /// The markers that end a capture of the application's output: an
    /// exception that nothing handles, and the application's own terminator.
    pub fn markers(&self) -> (r: Vec<Vec<u8>>)
        ensures
            byte_views(r@) == seq![unhandled_exception_marker(), self.spec_output_terminator()],
    {
        let mut markers: Vec<Vec<u8>> = Vec::new();
        markers.push("unhandled exception".as_bytes_vec());
        markers.push(self.output_terminator());
        assert(byte_views(markers@) =~= seq![
            unhandled_exception_marker(),
            self.spec_output_terminator(),
        ]);
        markers
    }

    /// The result for `output`: CoreMark reports a score or an error of its
    /// own; every other application encloses its result in markers.
    pub open spec fn result_of(self, output: Seq<u8>) -> Result<Option<Seq<u8>>, ErrorView> {
        match self {
            Benchmark::CoreMark => coremark_result(
                regex_first_group(coremark_error_pattern(), output),
                regex_first_group(coremark_score_pattern(), output),
            ),
            _ => enclosed_result(regex_first_group(enclosed_pattern(), output)),
        }
    }

    /// Whether the patterns by which the application's output is taken
    /// apart are accepted.
    pub open spec fn patterns_accepted(self) -> bool {
        match self {
            Benchmark::CoreMark => regex_accepts(coremark_error_pattern()) && regex_accepts(
                coremark_score_pattern(),
            ),
            _ => regex_accepts(enclosed_pattern()),
        }
    }
}

/// Turns the raw output of a benchmark application into its result. The
/// patterns by which it takes the output apart are looked at once, when it
/// is made, so that it cannot fail over them later.
#[derive(Debug)]
pub struct PostProcessor {
    benchmark: Benchmark,
}

impl PostProcessor {
    #[verifier::type_invariant]
    spec fn well_formed(self) -> bool {
        self.benchmark.patterns_accepted()
    }

    /// The application whose output is processed.
    pub closed spec fn benchmark(self) -> Benchmark {
        self.benchmark
    }

    /// A post-processor for `benchmark`, if the patterns for its output are
    /// accepted.
    pub fn new(benchmark: Benchmark) -> (r: Option<PostProcessor>)
        ensures
            r is Some <==> benchmark.patterns_accepted(),
            r matches Some(p) ==> p.benchmark() == benchmark,
    {
        let nothing: Vec<u8> = Vec::new();
        let accepted = match benchmark {
            Benchmark::CoreMark => first_group("ERROR! (.*)", nothing.as_slice()).is_some()
                && first_group(".*CoreMark 1.0 : ([0-9.]+)", nothing.as_slice()).is_some(),
            _ => first_group(
                "(?s).*%output-start\\s*(.*?)\\s*%output-end",
                nothing.as_slice(),
            ).is_some(),
        };
        if accepted {
            Some(PostProcessor { benchmark })
        } else {
            None
        }
    }

    /// The application whose output is processed.
    pub fn application(&self) -> (r: Benchmark)
        ensures
            r == self.benchmark(),
    {
        self.benchmark
    }

    /// What `pattern` finds in `output`, for a pattern that is accepted.
    fn group(pattern: &str, output: &[u8]) -> (r: Option<Vec<u8>>)
        requires
            regex_accepts(pattern@),
        ensures
            bytes_view(r) == regex_first_group(pattern@, output@),
    {
        match first_group(pattern, output) {
            Some(group) => group,
            None => None,
        }
    }

    /// Turns the raw output of the application into its result.
    pub fn process_output(&self, output: &[u8]) -> (r: Result<Option<Vec<u8>>, ProcessOutputError>)
        ensures
            result_view(r) == self.benchmark().result_of(output@),
    {
        proof {
            use_type_invariant(self);
        }
        match self.benchmark {
            Benchmark::CoreMark => {
                let error = PostProcessor::group("ERROR! (.*)", output);
                let score = PostProcessor::group(".*CoreMark 1.0 : ([0-9.]+)", output);
                result_from_coremark(error, score)
            },
            _ => result_from_enclosed(
                PostProcessor::group("(?s).*%output-start\\s*(.*?)\\s*%output-end", output),
            ),
        }
    }
}

} // verus!
