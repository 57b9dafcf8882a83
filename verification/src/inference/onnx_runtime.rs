//! Inference sessions: what a session accepts, in what state, and what a model
//! that stands in for a real one answers.

use vstd::prelude::*;
use crate::base::amount::Amount;
use crate::base::numbers::{divide_truncated, truncated_div};
use crate::base::table::Table;
use crate::base::text::views;

verus! {

/// Errors of a session.
#[derive(Debug, Clone)]
pub enum OnnxError {
    ModelLoadError(String),
    InferenceError(String),
    InputMismatchError(String),
    OutputParseError(String),
}

impl OnnxError {
    /// The error in words.
    pub open spec fn text(&self) -> Seq<char> {
        match *self {
            OnnxError::ModelLoadError(msg) => "Model load error: "@ + msg@,
            OnnxError::InferenceError(msg) => "Inference error: "@ + msg@,
            OnnxError::InputMismatchError(msg) => "Input mismatch: "@ + msg@,
            OnnxError::OutputParseError(msg) => "Output parse error: "@ + msg@,
        }
    }

    /// The error in words.
    pub fn to_string(&self) -> (s: String)
        ensures
            s@ == self.text(),
    {
        match self {
            OnnxError::ModelLoadError(msg) => {
                let mut s = "Model load error: ".to_owned();
                s.push_str(msg.as_str());
                s
            },
            OnnxError::InferenceError(msg) => {
                let mut s = "Inference error: ".to_owned();
                s.push_str(msg.as_str());
                s
            },
            OnnxError::InputMismatchError(msg) => {
                let mut s = "Input mismatch: ".to_owned();
                s.push_str(msg.as_str());
                s
            },
            OnnxError::OutputParseError(msg) => {
                let mut s = "Output parse error: ".to_owned();
                s.push_str(msg.as_str());
                s
            },
        }
    }
}

/// How operators are run.
#[derive(Debug, Clone, Copy, PartialEq, Eq, Structural)]
pub enum ExecutionMode {
    Sequential,
    Parallel,
}

/// How far a graph is optimised.
#[derive(Debug, Clone, Copy, PartialEq, Eq, Structural)]
pub enum GraphOptimizationLevel {
    Disabled,
    Basic,
    Extended,
    All,
}

/// Settings of a session.
#[derive(Debug, Clone, Copy, PartialEq, Eq, Structural)]
pub struct OnnxSessionConfig {
    pub intra_op_num_threads: usize,
    pub inter_op_num_threads: usize,
    pub enable_cpu_mem_arena: bool,
    pub enable_mem_pattern: bool,
    pub execution_mode: ExecutionMode,
    pub graph_optimization_level: GraphOptimizationLevel,
}

impl Default for OnnxSessionConfig {
    fn default() -> (c: Self)
        ensures
            c.intra_op_num_threads == 4,
            c.inter_op_num_threads == 2,
            c.enable_cpu_mem_arena,
            c.enable_mem_pattern,
            c.execution_mode == ExecutionMode::Sequential,
            c.graph_optimization_level == GraphOptimizationLevel::All,
    {
        OnnxSessionConfig {
            intra_op_num_threads: 4,
            inter_op_num_threads: 2,
            enable_cpu_mem_arena: true,
            enable_mem_pattern: true,
            execution_mode: ExecutionMode::Sequential,
            graph_optimization_level: GraphOptimizationLevel::All,
        }
    }
}

/// A session with a model.
pub struct OnnxRuntimeSession {
    pub model_path: String,
    pub config: OnnxSessionConfig,
    pub input_names: Vec<String>,
    pub output_names: Vec<String>,
    pub session_initialized: bool,
}

/// Why a session refuses inputs, where it does.
pub open spec fn refusal(initialized: bool, inputs: nat) -> Option<Seq<char>> {
    if !initialized {
        Some("Inference error: Session not initialized"@)
    } else if inputs == 0 {
        Some("Input mismatch: No inputs provided"@)
    } else {
        None
    }
}

/// The half of each value, cut off behind eight decimal places.
pub open spec fn halves(s: Seq<Amount>) -> Seq<Amount> {
    Seq::new(s.len(), |i: int| Amount { units: truncated_div(s[i].units as int, 2) as i64 })
}

impl OnnxRuntimeSession {
    /// A session that has not loaded its model yet.
    pub fn new(model_path: &str, config: OnnxSessionConfig) -> (r: Result<Self, OnnxError>)
        ensures
            r matches Ok(s) && s.model_path@ == model_path@ && s.config == config
                && s.input_names@.len() == 0 && s.output_names@.len() == 0
                && !s.session_initialized,
    {
        Ok(
            OnnxRuntimeSession {
                model_path: model_path.to_owned(),
                config,
                input_names: Vec::new(),
                output_names: Vec::new(),
                session_initialized: false,
            },
        )
    }

    /// Loads the model.
    pub fn initialize(&mut self) -> (r: Result<(), OnnxError>)
        ensures
            r is Ok,
            final(self).session_initialized,
            views(final(self).input_names@) == seq!["input"@],
            views(final(self).output_names@) == seq!["output"@],
            final(self).model_path == old(self).model_path,
            final(self).config == old(self).config,
    {
        let mut inputs: Vec<String> = Vec::new();
        inputs.push("input".to_owned());
        assert(views(inputs@) =~= seq!["input"@]);
        self.input_names = inputs;
        let mut outputs: Vec<String> = Vec::new();
        outputs.push("output".to_owned());
        assert(views(outputs@) =~= seq!["output"@]);
        self.output_names = outputs;
        self.session_initialized = true;
        Ok(())
    }

    /// Stands in for the model: halves each value.
    pub fn simulate_inference(&self, input: &[Amount]) -> (r: Vec<Amount>)
        ensures
            r@ == halves(input@),
    {
        let mut out: Vec<Amount> = Vec::new();
        let mut i: usize = 0;
        while i < input.len()
            invariant
                i <= input@.len(),
                out@ == halves(input@).take(i as int),
            decreases input@.len() - i,
        {
            out.push(Amount { units: divide_truncated(input[i].units as i128, 2) as i64 });
            i += 1;
            assert(out@ =~= halves(input@).take(i as int));
        }
        assert(out@ =~= halves(input@));
        out
    }

    /// Runs the model on the first input.
    pub fn run_inference(&self, inputs: &Table<Vec<Amount>>) -> (r: Result<Vec<Amount>, OnnxError>)
        ensures
            match refusal(self.session_initialized, inputs.entries@.len()) {
                Some(text) => r is Err && r->Err_0.text() == text,
                None => r matches Ok(v) && v@ == halves(inputs.entries@[0].1@),
            },
    {
        if !self.session_initialized {
            proof {
                reveal_strlit("Inference error: ");
                reveal_strlit("Session not initialized");
                reveal_strlit("Inference error: Session not initialized");
                assert("Inference error: "@ + "Session not initialized"@
                    =~= "Inference error: Session not initialized"@);
            }
            return Err(OnnxError::InferenceError("Session not initialized".to_owned()));
        }
        if inputs.len() == 0 {
            proof {
                reveal_strlit("Input mismatch: ");
                reveal_strlit("No inputs provided");
                reveal_strlit("Input mismatch: No inputs provided");
                assert("Input mismatch: "@ + "No inputs provided"@
                    =~= "Input mismatch: No inputs provided"@);
            }
            return Err(OnnxError::InputMismatchError("No inputs provided".to_owned()));
        }
        Ok(self.simulate_inference(inputs.entries[0].1.as_slice()))
    }

    /// Runs the model on a batch of inputs: on all of them, or up to the first
    /// refusal.
    pub fn run_batch_inference(&self, batch_inputs: &Vec<Table<Vec<Amount>>>) -> (r: Result<
        Vec<Vec<Amount>>,
        OnnxError,
    >)
        ensures
            match r {
                Ok(v) => v@.len() == batch_inputs@.len() && forall|i: int|
                    0 <= i < v@.len() ==> refusal(
                        self.session_initialized,
                        (#[trigger] batch_inputs@[i]).entries@.len(),
                    ) is None && v@[i]@ == halves(batch_inputs@[i].entries@[0].1@),
                Err(e) => exists|i: int|
                    0 <= i < batch_inputs@.len() && refusal(
                        self.session_initialized,
                        (#[trigger] batch_inputs@[i]).entries@.len(),
                    ) == Some(e.text()) && forall|j: int|
                        0 <= j < i ==> refusal(
                            self.session_initialized,
                            (#[trigger] batch_inputs@[j]).entries@.len(),
                        ) is None,
            },
    {
        let mut results: Vec<Vec<Amount>> = Vec::new();
        let mut i: usize = 0;
        while i < batch_inputs.len()
            invariant
                i <= batch_inputs@.len(),
                results@.len() == i,
                forall|k: int|
                    0 <= k < i ==> refusal(
                        self.session_initialized,
                        (#[trigger] batch_inputs@[k]).entries@.len(),
                    ) is None && results@[k]@ == halves(batch_inputs@[k].entries@[0].1@),
            decreases batch_inputs@.len() - i,
        {
            match self.run_inference(&batch_inputs[i]) {
                Ok(v) => results.push(v),
                Err(e) => {
                    assert(refusal(
                        self.session_initialized,
                        batch_inputs@[i as int].entries@.len(),
                    ) == Some(e.text()));
                    return Err(e);
                },
            }
            i += 1;
        }
        Ok(results)
    }

    /// The model's inputs.
    pub fn get_input_names(&self) -> (r: &[String])
        ensures
            r@ == self.input_names@,
    {
        self.input_names.as_slice()
    }

    /// The model's outputs.
    pub fn get_output_names(&self) -> (r: &[String])
        ensures
            r@ == self.output_names@,
    {
        self.output_names.as_slice()
    }

    /// Whether the model is loaded.
    pub fn is_initialized(&self) -> (r: bool)
        ensures
            r == self.session_initialized,
    {
        self.session_initialized
    }
}

/// A session that is shared.
pub struct ConcurrentOnnxSession {
    pub session: OnnxRuntimeSession,
}

impl ConcurrentOnnxSession {
    /// Shares a session.
    pub fn new(session: OnnxRuntimeSession) -> (c: Self)
        ensures
            c.session == session,
    {
        ConcurrentOnnxSession { session }
    }

    /// Runs the model on the first input.
    pub fn run_inference(&self, inputs: &Table<Vec<Amount>>) -> (r: Result<Vec<Amount>, OnnxError>)
        ensures
            match refusal(self.session.session_initialized, inputs.entries@.len()) {
                Some(text) => r is Err && r->Err_0.text() == text,
                None => r matches Ok(v) && v@ == halves(inputs.entries@[0].1@),
            },
    {
        self.session.run_inference(inputs)
    }
}

/// Makes sessions.
pub struct OnnxSessionBuilder {
    pub model_path: String,
    pub config: OnnxSessionConfig,
}

impl OnnxSessionBuilder {
    /// A builder with default settings.
    pub fn new(model_path: &str) -> (b: Self)
        ensures
            b.model_path@ == model_path@,
            b.config.intra_op_num_threads == 4,
            b.config.inter_op_num_threads == 2,
            b.config.enable_cpu_mem_arena,
            b.config.enable_mem_pattern,
            b.config.execution_mode == ExecutionMode::Sequential,
            b.config.graph_optimization_level == GraphOptimizationLevel::All,
    {
        OnnxSessionBuilder {
            model_path: model_path.to_owned(),
            config: OnnxSessionConfig::default(),
        }
    }

    /// Sets the threads within an operator.
    pub fn intra_op_threads(self, threads: usize) -> (b: Self)
        ensures
            b.model_path == self.model_path,
            b.config == (OnnxSessionConfig { intra_op_num_threads: threads, ..self.config }),
    {
        let mut b = self;
        b.config.intra_op_num_threads = threads;
        b
    }

    /// Sets the threads between operators.
    pub fn inter_op_threads(self, threads: usize) -> (b: Self)
        ensures
            b.model_path == self.model_path,
            b.config == (OnnxSessionConfig { inter_op_num_threads: threads, ..self.config }),
    {
        let mut b = self;
        b.config.inter_op_num_threads = threads;
        b
    }

    /// Sets how operators are run.
    pub fn execution_mode(self, mode: ExecutionMode) -> (b: Self)
        ensures
            b.model_path == self.model_path,
            b.config == (OnnxSessionConfig { execution_mode: mode, ..self.config }),
    {
        let mut b = self;
        b.config.execution_mode = mode;
        b
    }

    /// Sets how far the graph is optimised.
    pub fn optimization_level(self, level: GraphOptimizationLevel) -> (b: Self)
        ensures
            b.model_path == self.model_path,
            b.config == (OnnxSessionConfig { graph_optimization_level: level, ..self.config }),
    {
        let mut b = self;
        b.config.graph_optimization_level = level;
        b
    }

    /// Makes the session.
    pub fn build(self) -> (r: Result<OnnxRuntimeSession, OnnxError>)
        ensures
            r matches Ok(s) && s.model_path@ == self.model_path@ && s.config == self.config
                && s.input_names@.len() == 0 && s.output_names@.len() == 0
                && !s.session_initialized,
    {
        OnnxRuntimeSession::new(self.model_path.as_str(), self.config)
    }
}

} // verus!
