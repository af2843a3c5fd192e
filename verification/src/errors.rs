use vstd::prelude::*;

verus! {

/// Everything that can go wrong in the test-orchestration component. Only a
/// child process's own nonzero exit status is not represented here: the
/// caller propagates that status as its own instead of reporting an error.
#[derive(Debug, Clone, PartialEq, Eq)]
pub enum AutotestError {
    /// Malformed arguments to the staged runner.
    UsageError,
    /// The tool's symbolic reference does not exist; holds the class name.
    NotFound(String),
    /// The symbolic reference could not be resolved to a real path.
    ResolutionError(String),
    /// The overlay file was missing or unreadable.
    ConfigLoadError(String),
    /// A staged-run argument names a `.c` file.
    InvalidArgument,
    /// The discovery invocation failed or its output was unparseable.
    DiscoveryFailed(String),
    /// The discovery output carried no `labels` field in its first element.
    ManifestShapeError,
    /// No discovered label starts with the requested prefix.
    NoMatchingTests(String),
    /// A child process could not be started at all.
    SpawnError(String),
}

impl AutotestError {
    /// The descriptive text reported to the user for this error.
    pub open spec fn spec_message(&self) -> Seq<char> {
        match self {
            AutotestError::UsageError => "Invalid arguments for autotest-stage"@,
            AutotestError::NotFound(class) => class@ + ": autotest not found"@,
            AutotestError::ResolutionError(m) => "Failed to canonicalize autotest path: "@ + m@,
            AutotestError::ConfigLoadError(m) => "Could not load bash config: "@ + m@,
            AutotestError::InvalidArgument => "Invalid .c files in arguments"@,
            AutotestError::DiscoveryFailed(m) => m@,
            AutotestError::ManifestShapeError => "No labels found in autotest output"@,
            AutotestError::NoMatchingTests(p) => "No tests found with prefix '"@ + p@ + "'"@,
            AutotestError::SpawnError(m) => "Failed to execute process: "@ + m@,
        }
    }

    pub fn message(&self) -> (r: String)
        ensures
            r@ == self.spec_message(),
    {
        match self {
            AutotestError::UsageError => {
                let mut r = String::new();
                r.append("Invalid arguments for autotest-stage");
                r
            },
            AutotestError::NotFound(class) => {
                let mut r = class.clone();
                r.append(": autotest not found");
                r
            },
            AutotestError::ResolutionError(m) => {
                let mut r = String::new();
                r.append("Failed to canonicalize autotest path: ");
                r.append(m.as_str());
                r
            },
            AutotestError::ConfigLoadError(m) => {
                let mut r = String::new();
                r.append("Could not load bash config: ");
                r.append(m.as_str());
                r
            },
            AutotestError::InvalidArgument => {
                let mut r = String::new();
                r.append("Invalid .c files in arguments");
                r
            },
            AutotestError::DiscoveryFailed(m) => m.clone(),
            AutotestError::ManifestShapeError => {
                let mut r = String::new();
                r.append("No labels found in autotest output");
                r
            },
            AutotestError::NoMatchingTests(p) => {
                let mut r = String::new();
                r.append("No tests found with prefix '");
                r.append(p.as_str());
                r.append("'");
                r
            },
            AutotestError::SpawnError(m) => {
                let mut r = String::new();
                r.append("Failed to execute process: ");
                r.append(m.as_str());
                r
            },
        }
    }
}

} // verus!
