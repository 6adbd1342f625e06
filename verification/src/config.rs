//! Configuration model and validation.
//!
//! A configuration is an immutable snapshot of inputs, outputs and routes.
//! `Config::validate` enforces the structural invariants: every kind is one
//! of the known values with its required fields present, ids are unique
//! within inputs and within outputs, and every route references an existing
//! input and existing outputs. Validation either accepts, or rejects with
//! the error naming the first offending item in document order.

use vstd::prelude::*;
use crate::text::{concat_str, str_eq};

verus! {

/// An error raised while loading or validating a configuration.
#[derive(Debug)]
pub enum ConfigError {
    /// Reading the configuration file failed.
    Io(String),
    /// The document was not well-formed TOML.
    Toml(String),
    /// A kind-specific required field is missing.
    Validation(String),
    /// An input has a kind outside {alsa, file, http, silence}.
    UnknownInputKind(String),
    /// An output has a kind outside {sonos, http}.
    UnknownOutputKind(String),
    /// Two inputs, or two outputs, share an id.
    DuplicateId(String),
    /// A route references an id that no input or output declares.
    IdNotFound(String),
}

/// The human-readable text of a configuration error.
pub open spec fn config_error_text(e: ConfigError) -> Seq<char> {
    match e {
        ConfigError::Io(s) => "IO error: "@ + s@,
        ConfigError::Toml(s) => "TOML parsing error: "@ + s@,
        ConfigError::Validation(s) => "Validation error: "@ + s@,
        ConfigError::UnknownInputKind(s) => "Unknown input kind: "@ + s@,
        ConfigError::UnknownOutputKind(s) => "Unknown output kind: "@ + s@,
        ConfigError::DuplicateId(s) => "Duplicate ID: "@ + s@,
        ConfigError::IdNotFound(s) => "Referenced ID not found: "@ + s@,
    }
}

impl ConfigError {
    /// Renders the error for logs and admin responses.
    pub fn message(&self) -> (r: String)
        ensures
            r@ == config_error_text(*self),
    {
        match self {
            ConfigError::Io(s) => concat_str("IO error: ", s.as_str()),
            ConfigError::Toml(s) => concat_str("TOML parsing error: ", s.as_str()),
            ConfigError::Validation(s) => concat_str("Validation error: ", s.as_str()),
            ConfigError::UnknownInputKind(s) => concat_str("Unknown input kind: ", s.as_str()),
            ConfigError::UnknownOutputKind(s) => concat_str("Unknown output kind: ", s.as_str()),
            ConfigError::DuplicateId(s) => concat_str("Duplicate ID: ", s.as_str()),
            ConfigError::IdNotFound(s) => concat_str("Referenced ID not found: ", s.as_str()),
        }
    }
}

/// One audio input: a capture device, a file, an HTTP stream, or silence.
#[derive(Debug, Clone)]
pub struct Input {
    pub id: String,
    pub kind: String,
    /// Capture device name (alsa inputs).
    pub device: Option<String>,
    /// File path (file inputs).
    pub path: Option<String>,
    /// Whether a file input wraps to the start when it ends.
    pub loop_playback: Option<bool>,
    /// Stream URL (http inputs).
    pub url: Option<String>,
}

/// One playback destination: a named room, or a plain HTTP stream.
#[derive(Debug, Clone)]
pub struct Output {
    pub id: String,
    pub kind: String,
    /// Room name (sonos outputs).
    pub room: Option<String>,
    /// Playback buffer in seconds.
    pub buffer_sec: Option<u32>,
    /// Bind host (http outputs).
    pub host: Option<String>,
    /// Bind port (http outputs).
    pub port: Option<u16>,
}

/// One routing rule: an input feeding a set of outputs, with a gain and a
/// ducking amount, both in millibels (1 mB = 1/100 dB).
#[derive(Debug, Clone)]
pub struct Route {
    pub input: String,
    pub outputs: Vec<String>,
    pub gain_mb: i32,
    pub duck_mb: i32,
}

/// Logging preferences.
#[derive(Debug, Clone)]
pub struct Logging {
    pub level: String,
    pub file: Option<String>,
}

/// The log level used when the configuration does not name one.
pub fn default_log_level() -> (r: String)
    ensures
        r@ == "info"@,
{
    String::from_str("info")
}

/// A configuration snapshot.
#[derive(Debug, Clone)]
pub struct Config {
    pub inputs: Vec<Input>,
    pub outputs: Vec<Output>,
    pub routes: Vec<Route>,
    pub logging: Option<Logging>,
}

/// The input kinds the system understands.
pub open spec fn valid_input_kind(k: Seq<char>) -> bool {
    k == "alsa"@ || k == "file"@ || k == "http"@ || k == "silence"@
}

/// The output kinds the system understands.
pub open spec fn valid_output_kind(k: Seq<char>) -> bool {
    k == "sonos"@ || k == "http"@
}

/// The fields an input's kind requires are present.
pub open spec fn input_fields_ok(inp: Input) -> bool {
    &&& (inp.kind@ == "file"@ ==> inp.path is Some)
    &&& (inp.kind@ == "http"@ ==> inp.url is Some)
}

/// An input passes validation on its own: known kind, required fields.
pub open spec fn input_ok(inp: Input) -> bool {
    valid_input_kind(inp.kind@) && input_fields_ok(inp)
}

/// Every input passes validation on its own.
pub open spec fn inputs_ok(c: Config) -> bool {
    forall|i: int| 0 <= i < c.inputs@.len() ==> input_ok(#[trigger] c.inputs@[i])
}

/// Every output has a known kind.
pub open spec fn outputs_ok(c: Config) -> bool {
    forall|i: int| 0 <= i < c.outputs@.len() ==> valid_output_kind(#[trigger] c.outputs@[i].kind@)
}

/// No two inputs share an id.
pub open spec fn input_ids_unique(c: Config) -> bool {
    forall|i: int, j: int|
        0 <= i < j < c.inputs@.len() ==> #[trigger] c.inputs@[i].id@ != #[trigger] c.inputs@[j].id@
}

/// No two outputs share an id.
pub open spec fn output_ids_unique(c: Config) -> bool {
    forall|i: int, j: int|
        0 <= i < j < c.outputs@.len() ==> #[trigger] c.outputs@[i].id@
            != #[trigger] c.outputs@[j].id@
}

/// Some input declares this id.
pub open spec fn has_input_id(c: Config, id: Seq<char>) -> bool {
    exists|i: int| 0 <= i < c.inputs@.len() && #[trigger] c.inputs@[i].id@ == id
}

/// Some output declares this id.
pub open spec fn has_output_id(c: Config, id: Seq<char>) -> bool {
    exists|i: int| 0 <= i < c.outputs@.len() && #[trigger] c.outputs@[i].id@ == id
}

/// A route references only declared ids.
pub open spec fn route_ok(c: Config, r: Route) -> bool {
    &&& has_input_id(c, r.input@)
    &&& forall|k: int| 0 <= k < r.outputs@.len() ==> has_output_id(c, #[trigger] r.outputs@[k]@)
}

/// Every route references only declared ids.
pub open spec fn routes_ok(c: Config) -> bool {
    forall|t: int| 0 <= t < c.routes@.len() ==> route_ok(c, #[trigger] c.routes@[t])
}

/// A configuration passes validation as a whole.
pub open spec fn spec_valid(c: Config) -> bool {
    &&& inputs_ok(c)
    &&& outputs_ok(c)
    &&& input_ids_unique(c)
    &&& output_ids_unique(c)
    &&& routes_ok(c)
}

/// Input `i` is the first that fails its own validation.
pub open spec fn first_bad_input(c: Config, i: int) -> bool {
    &&& 0 <= i < c.inputs@.len()
    &&& !input_ok(c.inputs@[i])
    &&& forall|j: int| 0 <= j < i ==> input_ok(#[trigger] c.inputs@[j])
}

/// Output `i` is the first with an unknown kind, all inputs being fine.
pub open spec fn first_bad_output(c: Config, i: int) -> bool {
    &&& inputs_ok(c)
    &&& 0 <= i < c.outputs@.len()
    &&& !valid_output_kind(c.outputs@[i].kind@)
    &&& forall|j: int| 0 <= j < i ==> valid_output_kind(#[trigger] c.outputs@[j].kind@)
}

/// Input `i` is the first whose id repeats an earlier one, all kinds and
/// fields being fine.
pub open spec fn first_dup_input(c: Config, i: int) -> bool {
    &&& inputs_ok(c)
    &&& outputs_ok(c)
    &&& 0 <= i < c.inputs@.len()
    &&& (exists|j: int| 0 <= j < i && #[trigger] c.inputs@[j].id@ == c.inputs@[i].id@)
    &&& forall|i2: int, j2: int| 0 <= j2 < i2 < i ==> #[trigger] c.inputs@[j2].id@
        != #[trigger] c.inputs@[i2].id@
}

/// Output `i` is the first whose id repeats an earlier one, all earlier
/// checks passing.
pub open spec fn first_dup_output(c: Config, i: int) -> bool {
    &&& inputs_ok(c)
    &&& outputs_ok(c)
    &&& input_ids_unique(c)
    &&& 0 <= i < c.outputs@.len()
    &&& (exists|j: int| 0 <= j < i && #[trigger] c.outputs@[j].id@ == c.outputs@[i].id@)
    &&& forall|i2: int, j2: int| 0 <= j2 < i2 < i ==> #[trigger] c.outputs@[j2].id@
        != #[trigger] c.outputs@[i2].id@
}

/// All routes before `t` reference only declared ids.
pub open spec fn routes_ok_before(c: Config, t: int) -> bool {
    forall|t2: int| 0 <= t2 < t ==> route_ok(c, #[trigger] c.routes@[t2])
}

/// Route `t` is the first that references a missing id, all earlier checks
/// passing; `missing` is the id the error reports: the route's input if
/// that is missing, otherwise the first missing entry of its output list.
pub open spec fn first_bad_route(c: Config, t: int, missing: Seq<char>) -> bool {
    &&& inputs_ok(c)
    &&& outputs_ok(c)
    &&& input_ids_unique(c)
    &&& output_ids_unique(c)
    &&& 0 <= t < c.routes@.len()
    &&& routes_ok_before(c, t)
    &&& if !has_input_id(c, c.routes@[t].input@) {
        missing == c.routes@[t].input@
    } else {
        exists|k: int|
            {
                &&& 0 <= k < c.routes@[t].outputs@.len()
                &&& !has_output_id(c, #[trigger] c.routes@[t].outputs@[k]@)
                &&& missing == c.routes@[t].outputs@[k]@
                &&& forall|k2: int|
                    0 <= k2 < k ==> has_output_id(c, #[trigger] c.routes@[t].outputs@[k2]@)
            }
    }
}

/// What each error variant of `validate` says about the configuration.
pub open spec fn validation_error_matches(c: Config, e: ConfigError) -> bool {
    match e {
        ConfigError::UnknownInputKind(k) => exists|i: int|
            #[trigger] first_bad_input(c, i) && !valid_input_kind(c.inputs@[i].kind@) && k@
                == c.inputs@[i].kind@,
        ConfigError::Validation(m) => exists|i: int|
            #[trigger] first_bad_input(c, i) && valid_input_kind(c.inputs@[i].kind@) && ((
            c.inputs@[i].kind@ == "file"@ && c.inputs@[i].path is None && m@
                == "File path not specified"@) || (c.inputs@[i].kind@ == "http"@
                && c.inputs@[i].url is None && m@ == "HTTP URL not specified"@)),
        ConfigError::UnknownOutputKind(k) => exists|i: int|
            #[trigger] first_bad_output(c, i) && k@ == c.outputs@[i].kind@,
        ConfigError::DuplicateId(id) => (exists|i: int|
            #[trigger] first_dup_input(c, i) && id@ == c.inputs@[i].id@) || (exists|i: int|
            #[trigger] first_dup_output(c, i) && id@ == c.outputs@[i].id@),
        ConfigError::IdNotFound(id) => exists|t: int| #[trigger] first_bad_route(c, t, id@),
        _ => false,
    }
}

/// True when some input declares this id.
pub fn inputs_contain_id(inputs: &Vec<Input>, id: &str) -> (r: bool)
    ensures
        r == exists|i: int| 0 <= i < inputs@.len() && #[trigger] inputs@[i].id@ == id@,
{
    let n = inputs.len();
    let mut i: usize = 0;
    while i < n
        invariant
            0 <= i <= n,
            n == inputs@.len(),
            forall|j: int| 0 <= j < i ==> #[trigger] inputs@[j].id@ != id@,
        decreases n - i,
    {
        if str_eq(inputs[i].id.as_str(), id) {
            return true;
        }
        i = i + 1;
    }
    false
}

/// True when some output declares this id.
pub fn outputs_contain_id(outputs: &Vec<Output>, id: &str) -> (r: bool)
    ensures
        r == exists|i: int| 0 <= i < outputs@.len() && #[trigger] outputs@[i].id@ == id@,
{
    let n = outputs.len();
    let mut i: usize = 0;
    while i < n
        invariant
            0 <= i <= n,
            n == outputs@.len(),
            forall|j: int| 0 <= j < i ==> #[trigger] outputs@[j].id@ != id@,
        decreases n - i,
    {
        if str_eq(outputs[i].id.as_str(), id) {
            return true;
        }
        i = i + 1;
    }
    false
}

impl Config {
    /// Checks the structural invariants of the configuration: accepts
    /// exactly the configurations that satisfy `spec_valid`, and rejects
    /// every other with the error for the first offending item.
    pub fn validate(&self) -> (r: Result<(), ConfigError>)
        ensures
            r is Ok <==> spec_valid(*self),
            match r {
                Ok(_) => spec_valid(*self),
                Err(e) => validation_error_matches(*self, e),
            },
    {
        let n_in = self.inputs.len();
        let mut i: usize = 0;
        while i < n_in
            invariant
                0 <= i <= n_in,
                n_in == self.inputs@.len(),
                forall|j: int| 0 <= j < i ==> input_ok(#[trigger] self.inputs@[j]),
            decreases n_in - i,
        {
            let kind = self.inputs[i].kind.as_str();
            let is_file = str_eq(kind, "file");
            let is_http = str_eq(kind, "http");
            if !(str_eq(kind, "alsa") || is_file || is_http || str_eq(kind, "silence")) {
                proof {
                    assert(first_bad_input(*self, i as int));
                }
                return Err(ConfigError::UnknownInputKind(self.inputs[i].kind.clone()));
            }
            if is_file && self.inputs[i].path.is_none() {
                proof {
                    assert(first_bad_input(*self, i as int));
                }
                return Err(ConfigError::Validation(String::from_str("File path not specified")));
            }
            if is_http && self.inputs[i].url.is_none() {
                proof {
                    assert(first_bad_input(*self, i as int));
                }
                return Err(ConfigError::Validation(String::from_str("HTTP URL not specified")));
            }
            i = i + 1;
        }
        let n_out = self.outputs.len();
        let mut i: usize = 0;
        while i < n_out
            invariant
                0 <= i <= n_out,
                n_out == self.outputs@.len(),
                inputs_ok(*self),
                forall|j: int| 0 <= j < i ==> valid_output_kind(#[trigger] self.outputs@[j].kind@),
            decreases n_out - i,
        {
            let kind = self.outputs[i].kind.as_str();
            if !(str_eq(kind, "sonos") || str_eq(kind, "http")) {
                proof {
                    assert(first_bad_output(*self, i as int));
                }
                return Err(ConfigError::UnknownOutputKind(self.outputs[i].kind.clone()));
            }
            i = i + 1;
        }
        let mut i: usize = 0;
        while i < n_in
            invariant
                0 <= i <= n_in,
                n_in == self.inputs@.len(),
                inputs_ok(*self),
                outputs_ok(*self),
                forall|i2: int, j2: int|
                    0 <= j2 < i2 < i ==> #[trigger] self.inputs@[j2].id@ != #[trigger] self.inputs@[i2].id@,
            decreases n_in - i,
        {
            let mut j: usize = 0;
            while j < i
                invariant
                    0 <= j <= i < n_in,
                    n_in == self.inputs@.len(),
                    inputs_ok(*self),
                    outputs_ok(*self),
                    forall|i2: int, j2: int|
                        0 <= j2 < i2 < i ==> #[trigger] self.inputs@[j2].id@
                            != #[trigger] self.inputs@[i2].id@,
                    forall|j2: int| 0 <= j2 < j ==> #[trigger] self.inputs@[j2].id@ != self.inputs@[i as int].id@,
                decreases i - j,
            {
                if str_eq(self.inputs[j].id.as_str(), self.inputs[i].id.as_str()) {
                    proof {
                        assert(first_dup_input(*self, i as int));
                    }
                    return Err(ConfigError::DuplicateId(self.inputs[i].id.clone()));
                }
                j = j + 1;
            }
            i = i + 1;
        }
        let mut i: usize = 0;
        while i < n_out
            invariant
                0 <= i <= n_out,
                n_out == self.outputs@.len(),
                inputs_ok(*self),
                outputs_ok(*self),
                input_ids_unique(*self),
                forall|i2: int, j2: int|
                    0 <= j2 < i2 < i ==> #[trigger] self.outputs@[j2].id@ != #[trigger] self.outputs@[i2].id@,
            decreases n_out - i,
        {
            let mut j: usize = 0;
            while j < i
                invariant
                    0 <= j <= i < n_out,
                    n_out == self.outputs@.len(),
                    inputs_ok(*self),
                    outputs_ok(*self),
                    input_ids_unique(*self),
                    forall|i2: int, j2: int|
                        0 <= j2 < i2 < i ==> #[trigger] self.outputs@[j2].id@
                            != #[trigger] self.outputs@[i2].id@,
                    forall|j2: int| 0 <= j2 < j ==> #[trigger] self.outputs@[j2].id@ != self.outputs@[i as int].id@,
                decreases i - j,
            {
                if str_eq(self.outputs[j].id.as_str(), self.outputs[i].id.as_str()) {
                    proof {
                        assert(first_dup_output(*self, i as int));
                    }
                    return Err(ConfigError::DuplicateId(self.outputs[i].id.clone()));
                }
                j = j + 1;
            }
            i = i + 1;
        }
        let n_routes = self.routes.len();
        let mut t: usize = 0;
        while t < n_routes
            invariant
                0 <= t <= n_routes,
                n_routes == self.routes@.len(),
                inputs_ok(*self),
                outputs_ok(*self),
                input_ids_unique(*self),
                output_ids_unique(*self),
                routes_ok_before(*self, t as int),
            decreases n_routes - t,
        {
            if !inputs_contain_id(&self.inputs, self.routes[t].input.as_str()) {
                let missing = self.routes[t].input.clone();
                proof {
                    assert(first_bad_route(*self, t as int, missing@));
                }
                let err = ConfigError::IdNotFound(missing);
                proof {
                    assert(exists|t2: int| first_bad_route(*self, t2, missing@));
                    assert(err->IdNotFound_0@ == missing@);
                    assert(validation_error_matches(*self, err));
                }
                return Err(err);
            }
            let n_ro = self.routes[t].outputs.len();
            let mut k: usize = 0;
            while k < n_ro
                invariant
                    0 <= k <= n_ro,
                    0 <= t < n_routes,
                    n_routes == self.routes@.len(),
                    n_ro == self.routes@[t as int].outputs@.len(),
                    inputs_ok(*self),
                    outputs_ok(*self),
                    input_ids_unique(*self),
                    output_ids_unique(*self),
                    routes_ok_before(*self, t as int),
                    has_input_id(*self, self.routes@[t as int].input@),
                    forall|k2: int|
                        0 <= k2 < k ==> has_output_id(
                            *self,
                            #[trigger] self.routes@[t as int].outputs@[k2]@,
                        ),
                decreases n_ro - k,
            {
                if !outputs_contain_id(&self.outputs, self.routes[t].outputs[k].as_str()) {
                    let missing = self.routes[t].outputs[k].clone();
                    proof {
                        assert(first_bad_route(*self, t as int, missing@));
                    }
                    let err = ConfigError::IdNotFound(missing);
                    proof {
                        assert(exists|t2: int| first_bad_route(*self, t2, missing@));
                        assert(err->IdNotFound_0@ == missing@);
                        assert(validation_error_matches(*self, err));
                    }
                    return Err(err);
                }
                k = k + 1;
            }
            proof {
                assert(route_ok(*self, self.routes@[t as int]));
            }
            t = t + 1;
        }
        Ok(())
    }
}

/// No two inputs share an id, and no two outputs share an id, in any
/// configuration that validation accepts.
pub proof fn lemma_id_uniqueness(c: Config)
    requires
        spec_valid(c),
    ensures
        forall|i: int, j: int|
            0 <= i < j < c.inputs@.len() ==> #[trigger] c.inputs@[i].id@ != #[trigger] c.inputs@[j].id@,
        forall|i: int, j: int|
            0 <= i < j < c.outputs@.len() ==> #[trigger] c.outputs@[i].id@ != #[trigger] c.outputs@[j].id@,
{
}

} // verus!
