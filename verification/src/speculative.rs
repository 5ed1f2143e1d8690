//! Drafting of tokens with a DSpark model: what it keeps track of, and what it decides.
use vstd::prelude::*;

verus! {

/// A kind of layer.
#[derive(Clone, Copy, Debug, PartialEq, Eq, Structural)]
pub enum LayerType {
    Conv,
    FullAttention,
}

/// Why drafting is refused.
#[derive(Clone, Copy, Debug, PartialEq, Eq, Structural)]
pub enum SpeculativeError {
    /// The model that was loaded is of another kind.
    NotDSpark,
    /// At least one token has to be drafted.
    ZeroTokens,
    /// The model drafts fewer tokens than asked for.
    TooManyTokens { requested: usize, block: usize },
    /// There is no head for drafting in the model itself.
    NoBuiltinHead,
    /// There is no model to draft with.
    NoDrafter,
    /// More tokens are asked for than were set up.
    ProposalLength { requested: usize, maximum: usize },
    /// The number of a row does not fit in a `usize`.
    RowOverflow,
    /// The number of a row does not fit in 32 bits.
    RowRange { row: usize },
    /// There are no checkpoints to go back to.
    NoCheckpoints,
}

/// What a model keeps track of for drafting.
pub struct Model {
    pub layer_types: Vec<LayerType>,
    /// How many tokens are drafted; none if it is zero.
    pub mtp_n_predict: usize,
    /// Whether the states of layers are kept for the drafting model.
    pub store_spec_hidden: bool,
    /// The layers whose states are kept.
    pub dflash_tap_layers: Vec<usize>,
    /// Whether there are states of the last step.
    pub has_spec_capture: bool,
    /// Whether there are states of the last prompt.
    pub has_full_capture: bool,
    /// Whether there is a model to draft with.
    pub has_drafter: bool,
}

/// How many tokens are drafted, from what is asked for and the block size of the model.
pub open spec fn chosen_n_predict(requested: Option<usize>, block: usize) -> Result<
    usize,
    SpeculativeError,
> {
    match requested {
        Some(n) => if n == 0 {
            Err(SpeculativeError::ZeroTokens)
        } else if n + 1 > block {
            Err(SpeculativeError::TooManyTokens { requested: n, block })
        } else {
            Ok(n)
        },
        None => Ok((block - 1) as usize),
    }
}

/// How many tokens are drafted.
pub fn choose_n_predict(requested: Option<usize>, block: usize) -> (n: Result<
    usize,
    SpeculativeError,
>)
    requires
        requested is None ==> block > 0,
    ensures
        n == chosen_n_predict(requested, block),
{
    match requested {
        Some(n) => if n == 0 {
            Err(SpeculativeError::ZeroTokens)
        } else if n >= block {
            Err(SpeculativeError::TooManyTokens { requested: n, block })
        } else {
            Ok(n)
        },
        None => Ok(block - 1),
    }
}

/// What is asked for.
#[derive(Clone, Copy, Debug, PartialEq, Eq, Structural)]
pub enum SpeculativeRequest {
    /// Drafting with a head of the model itself.
    Builtin,
    /// Drafting with a model of its own.
    External,
    /// No drafting of this kind.
    Other,
}

/// How drafting is set up: the number of tokens, and the number of checkpoints that the cache
/// has to keep, if it keeps any.
#[derive(Clone, Copy, Debug, PartialEq, Eq, Structural)]
pub struct AttachPlan {
    pub n_predict: usize,
    pub checkpoint_lanes: Option<usize>,
}

impl Model {
    /// How many tokens are drafted.
    pub fn mtp_n_predict(&self) -> (n: usize)
        ensures
            n == self.mtp_n_predict,
    {
        self.mtp_n_predict
    }

    /// Sets which layers are kept for the drafting model. States that were kept are dropped if
    /// no more are.
    pub fn set_speculative_capture(&mut self, store: bool, tap_layers: Vec<usize>)
        ensures
            final(self).store_spec_hidden == store,
            final(self).dflash_tap_layers@ == tap_layers@,
            final(self).has_spec_capture == (store && old(self).has_spec_capture),
            final(self).has_full_capture == (store && old(self).has_full_capture),
            final(self).layer_types == old(self).layer_types,
            final(self).mtp_n_predict == old(self).mtp_n_predict,
            final(self).has_drafter == old(self).has_drafter,
    {
        self.store_spec_hidden = store;
        self.dflash_tap_layers = tap_layers;
        if !store {
            self.has_spec_capture = false;
            self.has_full_capture = false;
        }
    }

    /// Whether some layer is a convolution, of which checkpoints can be kept.
    pub fn supports_shortconv_checkpoints(&self) -> (yes: bool)
        ensures
            yes == self.layer_types@.contains(LayerType::Conv),
    {
        let mut i: usize = 0;
        while i < self.layer_types.len()
            invariant
                i <= self.layer_types@.len(),
                forall|j: int| 0 <= j < i ==> #[trigger] self.layer_types@[j] != LayerType::Conv,
            decreases self.layer_types@.len() - i,
        {
            if self.layer_types[i] == LayerType::Conv {
                assert(self.layer_types@[i as int] == LayerType::Conv);
                return true;
            }
            i += 1;
        }
        false
    }

    /// Decides how drafting with a loaded model is set up.
    pub fn plan_attach(&self, is_dspark: bool, requested: Option<usize>, block: usize) -> (plan:
        Result<AttachPlan, SpeculativeError>)
        requires
            is_dspark && requested is None ==> block > 0,
        ensures
            match plan {
                Ok(p) => {
                    &&& is_dspark
                    &&& chosen_n_predict(requested, block) == Ok::<usize, SpeculativeError>(
                        p.n_predict,
                    )
                    &&& p.checkpoint_lanes == if self.layer_types@.contains(LayerType::Conv) {
                        Some((p.n_predict + 1) as usize)
                    } else {
                        None
                    }
                },
                Err(e) => if is_dspark {
                    chosen_n_predict(requested, block) == Err::<usize, SpeculativeError>(e)
                } else {
                    e == SpeculativeError::NotDSpark
                },
            },
    {
        if !is_dspark {
            return Err(SpeculativeError::NotDSpark);
        }
        let n_predict: usize = choose_n_predict(requested, block)?;
        let checkpoint_lanes: Option<usize> = if self.supports_shortconv_checkpoints() {
            Some(n_predict + 1)
        } else {
            None
        };
        Ok(AttachPlan { n_predict, checkpoint_lanes })
    }

    /// Begins to draft tokens.
    pub fn attach(&mut self, n_predict: usize, tap_layers: Vec<usize>)
        ensures
            final(self).mtp_n_predict == n_predict,
            final(self).store_spec_hidden,
            final(self).dflash_tap_layers@ == tap_layers@,
            final(self).has_spec_capture == old(self).has_spec_capture,
            final(self).has_full_capture == old(self).has_full_capture,
            final(self).has_drafter,
            final(self).layer_types == old(self).layer_types,
    {
        self.set_speculative_capture(true, tap_layers);
        self.mtp_n_predict = n_predict;
        self.has_drafter = true;
    }

    /// Ends drafting.
    pub fn detach(&mut self)
        ensures
            final(self).mtp_n_predict == 0,
            !final(self).store_spec_hidden,
            final(self).dflash_tap_layers@.len() == 0,
            !final(self).has_spec_capture,
            !final(self).has_full_capture,
            !final(self).has_drafter,
            final(self).layer_types == old(self).layer_types,
    {
        self.mtp_n_predict = 0;
        self.set_speculative_capture(false, Vec::new());
        self.has_drafter = false;
    }

    /// Decides on what is asked for: whether a model is to be attached. If no drafting is asked
    /// for, it ends.
    pub fn attach_speculative(&mut self, request: SpeculativeRequest) -> (attach: Result<
        bool,
        SpeculativeError,
    >)
        ensures
            match request {
                SpeculativeRequest::Other => {
                    &&& attach == Ok::<bool, SpeculativeError>(false)
                    &&& final(self).mtp_n_predict == 0
                    &&& !final(self).store_spec_hidden
                    &&& final(self).dflash_tap_layers@.len() == 0
                    &&& !final(self).has_spec_capture
                    &&& !final(self).has_full_capture
                    &&& !final(self).has_drafter
                    &&& final(self).layer_types == old(self).layer_types
                },
                SpeculativeRequest::Builtin => {
                    &&& attach == Err::<bool, SpeculativeError>(SpeculativeError::NoBuiltinHead)
                    &&& *final(self) == *old(self)
                },
                SpeculativeRequest::External => {
                    &&& attach == Ok::<bool, SpeculativeError>(true)
                    &&& *final(self) == *old(self)
                },
            },
    {
        match request {
            SpeculativeRequest::Other => {
                self.detach();
                Ok(false)
            },
            SpeculativeRequest::Builtin => Err(SpeculativeError::NoBuiltinHead),
            SpeculativeRequest::External => Ok(true),
        }
    }

    /// How many tokens a step drafts, if it drafts any.
    pub fn speculative_plan(&self) -> (n: Option<usize>)
        ensures
            n == if self.mtp_n_predict > 0 {
                Some(self.mtp_n_predict)
            } else {
                None
            },
    {
        if self.mtp_n_predict > 0 {
            Some(self.mtp_n_predict)
        } else {
            None
        }
    }

    /// The numbers of tokens that steps are prepared for.
    pub fn speculative_graph_plans(&self) -> (plans: Vec<usize>)
        ensures
            plans@ == if self.mtp_n_predict > 0 {
                seq![self.mtp_n_predict]
            } else {
                Seq::empty()
            },
    {
        let mut plans: Vec<usize> = Vec::new();
        if let Some(n) = self.speculative_plan() {
            plans.push(n);
        }
        assert(self.mtp_n_predict > 0 ==> plans@ =~= seq![self.mtp_n_predict]);
        plans
    }

    /// Whether tokens are drafted.
    pub fn has_speculative_proposer(&self) -> (yes: bool)
        ensures
            yes == (self.mtp_n_predict > 0),
    {
        self.mtp_n_predict > 0
    }

    /// Whether the drafting model can be given the states of a prompt before the first draft.
    pub fn supports_speculative_prompt_bootstrap(&self) -> (yes: bool)
        ensures
            yes == self.has_drafter,
    {
        self.has_drafter
    }

    /// Whether the prompts that the drafting model is given may be packed together.
    pub fn supports_speculative_packed_prefill(&self) -> (yes: bool)
        ensures
            yes == self.has_drafter,
    {
        self.has_drafter
    }
}

/// The tokens that a draft starts from: for each sequence its last token, followed by as many
/// masks as tokens are drafted.
pub fn noise_ids(anchors: &Vec<u32>, mask: u32, n_predict: usize) -> (ids: Vec<u32>)
    requires
        anchors@.len() * (n_predict + 1) <= usize::MAX,
        n_predict < usize::MAX,
    ensures
        ids@.len() == anchors@.len() * (n_predict + 1),
        forall|a: int, i: int|
            0 <= a < anchors@.len() && 0 <= i <= n_predict ==> #[trigger] noise_at(
                ids@,
                a,
                i,
                n_predict,
            ) == if i == 0 {
                anchors@[a]
            } else {
                mask
            },
{
    let mut ids: Vec<u32> = Vec::new();
    let mut a: usize = 0;
    while a < anchors.len()
        invariant
            a <= anchors@.len(),
            ids@.len() == a * (n_predict + 1),
            forall|b: int, i: int|
                0 <= b < a && 0 <= i <= n_predict ==> #[trigger] noise_at(ids@, b, i, n_predict)
                    == if i == 0 {
                    anchors@[b]
                } else {
                    mask
                },
        decreases anchors@.len() - a,
    {
        let ghost before = ids@;
        ids.push(anchors[a]);
        let mut k: usize = 0;
        while k < n_predict
            invariant
                k <= n_predict,
                a < anchors@.len(),
                before.len() == a * (n_predict + 1),
                ids@.len() == before.len() + 1 + k,
                forall|j: int| 0 <= j < before.len() ==> #[trigger] ids@[j] == before[j],
                ids@[before.len() as int] == anchors@[a as int],
                forall|j: int|
                    before.len() < j < ids@.len() ==> #[trigger] ids@[j] == mask,
            decreases n_predict - k,
        {
            ids.push(mask);
            k += 1;
        }
        proof {
            let block = n_predict + 1;
            assert((a + 1) * block == a * block + block) by (nonlinear_arith);
            assert forall|b: int, i: int| 0 <= b < a + 1 && 0 <= i <= n_predict implies #[trigger] noise_at(
                ids@,
                b,
                i,
                n_predict,
            ) == if i == 0 {
                anchors@[b]
            } else {
                mask
            } by {
                if b < a {
                    assert(0 <= b * block + i < a * block) by (nonlinear_arith)
                        requires
                            0 <= b,
                            b + 1 <= a,
                            0 <= i < block,
                    ;
                    assert(noise_at(before, b, i, n_predict) == noise_at(ids@, b, i, n_predict));
                }
            }
        }
        a += 1;
    }
    ids
}

/// Token `i` of the block of sequence `a`.
pub open spec fn noise_at(ids: Seq<u32>, a: int, i: int, n_predict: usize) -> u32 {
    ids[a * (n_predict + 1) + i]
}

/// States of a sequence that the drafting model is given.
#[derive(Clone, Copy, Debug, PartialEq, Eq, Structural)]
pub struct CtxAppend {
    pub seq_id: usize,
    pub rows: usize,
    pub start_pos: usize,
}

/// Where the states of a sequence are: the sequence in the batch, and how many rows it has.
#[derive(Clone, Copy, Debug, PartialEq, Eq, Structural)]
pub struct TargetRows {
    pub batch_idx: usize,
    pub count: usize,
}

/// What a step knows when it is asked for drafts.
pub struct ProposeInputs {
    pub seq_ids: Vec<usize>,
    pub proposal_len: usize,
    /// Whether the tokens of some sequence are drawn at random.
    pub any_stochastic: bool,
    /// Whether the drafting model has put some sequence aside.
    pub any_dormant: bool,
    /// The number of layers whose states are there, if there are any.
    pub taps: Option<usize>,
    /// The number of layers that the drafting model takes.
    pub expected_taps: usize,
    /// The number of rows of states for each sequence of the batch.
    pub source_rows: usize,
    pub target_rows: Vec<TargetRows>,
    pub base_lens: Vec<usize>,
    /// Where the drafting model has each sequence continue, if it knows it.
    pub next_pos: Vec<Option<usize>>,
}

/// The states that the drafting model is given: the rows, and which sequences they belong to.
pub struct ProposePlan {
    pub appends: Vec<CtxAppend>,
    pub rows: Vec<u32>,
}

/// The numbers from `start` on.
pub open spec fn rows_from(start: int, n: nat) -> Seq<u32> {
    Seq::new(n, |i: int| (start + i) as u32)
}

/// What comes of going through the first sequences of a step.
#[verifier::ext_equal]
pub enum Collected {
    /// These states.
    States { appends: Seq<CtxAppend>, rows: Seq<u32> },
    /// No drafts.
    Nothing,
    /// An error.
    Fault { error: SpeculativeError },
}

impl ProposeInputs {
    /// What is known of every sequence.
    pub open spec fn wf(&self) -> bool {
        let n = self.seq_ids@.len();
        &&& self.target_rows@.len() >= n
        &&& self.base_lens@.len() >= n
        &&& self.next_pos@.len() >= n
        &&& forall|i: int|
            0 <= i < n && #[trigger] self.flat_start(i) <= usize::MAX ==> self.flat_start(i)
                + self.needed(i) <= usize::MAX
    }

    /// How many states of a sequence the drafting model lacks.
    pub open spec fn needed(&self, i: int) -> int {
        let base = self.base_lens@[i];
        let count = self.target_rows@[i].count;
        match self.next_pos@[i] {
            Some(next) if next <= base => base - next,
            _ => if count < base {
                count as int
            } else {
                base as int
            },
        }
    }

    /// The row of the first of these states.
    pub open spec fn flat_start(&self, i: int) -> int {
        let t = self.target_rows@[i];
        t.batch_idx * self.source_rows + (t.count - self.needed(i))
    }

    /// What comes of the first `n` sequences: the states that are needed, unless some of them
    /// are not there.
    pub open spec fn collected(&self, n: nat) -> Collected
        decreases n,
    {
        if n == 0 {
            Collected::States { appends: Seq::empty(), rows: Seq::empty() }
        } else {
            let i = n - 1;
            match self.collected(i as nat) {
                Collected::States { appends, rows } => {
                    let needed = self.needed(i);
                    let count = self.target_rows@[i].count;
                    let start = self.flat_start(i);
                    if needed == 0 {
                        Collected::States { appends, rows }
                    } else if needed > count || count > self.source_rows {
                        Collected::Nothing
                    } else if self.target_rows@[i].batch_idx * self.source_rows > usize::MAX
                        || start > usize::MAX {
                        Collected::Fault { error: SpeculativeError::RowOverflow }
                    } else if start + needed - 1 > u32::MAX {
                        Collected::Fault {
                            error: SpeculativeError::RowRange {
                                row: if start > u32::MAX {
                                    start as usize
                                } else {
                                    0x1_0000_0000int as usize
                                },
                            },
                        }
                    } else {
                        Collected::States {
                            appends: appends.push(
                                CtxAppend {
                                    seq_id: self.seq_ids@[i],
                                    rows: needed as usize,
                                    start_pos: (self.base_lens@[i] - needed) as usize,
                                },
                            ),
                            rows: rows + rows_from(start, needed as nat),
                        }
                    }
                },
                other => other,
            }
        }
    }

    /// Whether the step has no drafts for another reason than missing states.
    pub open spec fn declines_early(&self) -> bool {
        self.seq_ids@.len() == 0 || self.proposal_len == 0 || self.any_stochastic
    }

    /// Whether there are no states of the layers that the drafting model takes.
    pub open spec fn lacks_states(&self) -> bool {
        self.any_dormant || self.taps != Some(self.expected_taps)
    }

    fn needed_rows(&self, i: usize) -> (needed: usize)
        requires
            i < self.base_lens@.len(),
            i < self.target_rows@.len(),
            i < self.next_pos@.len(),
        ensures
            needed == self.needed(i as int),
            needed <= self.base_lens@[i as int],
    {
        let base: usize = self.base_lens[i];
        let count: usize = self.target_rows[i].count;
        if let Some(next) = self.next_pos[i] {
            if next <= base {
                return base - next;
            }
        }
        if count < base {
            count
        } else {
            base
        }
    }

    /// Collects the states that the drafting model lacks; `None` if they are not there.
    pub fn collect(&self) -> (plan: Result<Option<ProposePlan>, SpeculativeError>)
        requires
            self.wf(),
        ensures
            match plan {
                Ok(Some(p)) => self.collected(self.seq_ids@.len()) == (Collected::States {
                    appends: p.appends@,
                    rows: p.rows@,
                }),
                Ok(None) => self.collected(self.seq_ids@.len()) is Nothing,
                Err(error) => self.collected(self.seq_ids@.len()) == (Collected::Fault { error }),
            },
    {
        let mut appends: Vec<CtxAppend> = Vec::new();
        let mut rows: Vec<u32> = Vec::new();
        let mut i: usize = 0;
        while i < self.seq_ids.len()
            invariant
                i <= self.seq_ids@.len(),
                self.wf(),
                self.collected(i as nat) == (Collected::States {
                    appends: appends@,
                    rows: rows@,
                }),
            decreases self.seq_ids@.len() - i,
        {
            let t: TargetRows = self.target_rows[i];
            let needed: usize = self.needed_rows(i);
            let ghost n = self.seq_ids@.len();
            if needed == 0 {
                i += 1;
                continue;
            }
            if needed > t.count || t.count > self.source_rows {
                proof {
                    self.outcome_stays((i + 1) as nat, n);
                }
                return Ok(None);
            }
            let start_row: usize = t.count - needed;
            let base: usize = match t.batch_idx.checked_mul(self.source_rows) {
                Some(base) => base,
                None => {
                    proof {
                        self.outcome_stays((i + 1) as nat, n);
                    }
                    return Err(SpeculativeError::RowOverflow);
                },
            };
            let start: usize = match base.checked_add(start_row) {
                Some(start) => start,
                None => {
                    proof {
                        self.outcome_stays((i + 1) as nat, n);
                    }
                    return Err(SpeculativeError::RowOverflow);
                },
            };
            assert(start == self.flat_start(i as int));
            let ghost before = rows@;
            let mut k: usize = 0;
            while k < needed
                invariant
                    k <= needed,
                    start + needed <= usize::MAX,
                    i < self.seq_ids@.len(),
                    n == self.seq_ids@.len(),
                    start == self.flat_start(i as int),
                    needed == self.needed(i as int),
                    needed > 0,
                    t == self.target_rows@[i as int],
                    needed <= t.count <= self.source_rows,
                    t.batch_idx * self.source_rows <= usize::MAX,
                    self.collected(i as nat) == (Collected::States {
                        appends: appends@,
                        rows: before,
                    }),
                    rows@ == before + rows_from(start as int, k as nat),
                    k == 0 || start + k - 1 <= u32::MAX,
                decreases needed - k,
            {
                let row: usize = start + k;
                if row > u32::MAX as usize {
                    proof {
                        assert(k == 0 || row == 0x1_0000_0000);
                        self.outcome_stays((i + 1) as nat, n);
                    }
                    return Err(SpeculativeError::RowRange { row });
                }
                rows.push(row as u32);
                k += 1;
                assert(rows@ =~= before + rows_from(start as int, k as nat));
            }
            appends.push(
                CtxAppend {
                    seq_id: self.seq_ids[i],
                    rows: needed,
                    start_pos: self.base_lens[i] - needed,
                },
            );
            i += 1;
        }
        Ok(Some(ProposePlan { appends, rows }))
    }

    proof fn outcome_stays(&self, m: nat, n: nat)
        requires
            m <= n,
            self.collected(m) !is States,
        ensures
            self.collected(n) == self.collected(m),
        decreases n,
    {
        if m < n {
            self.outcome_stays(m, (n - 1) as nat);
        }
    }
}

/// The smallest of three lengths.
pub open spec fn shortest(a: nat, b: nat, c: nat) -> nat {
    if a <= b && a <= c {
        a
    } else if b <= c {
        b
    } else {
        c
    }
}

impl Model {
    /// What is wrong with asking for drafts, and whether there are none without asking the
    /// drafting model, before its states are looked at.
    pub open spec fn propose_gate(&self, inputs: ProposeInputs) -> Result<bool, SpeculativeError> {
        if !self.has_drafter {
            Err(SpeculativeError::NoDrafter)
        } else if inputs.declines_early() {
            Ok(false)
        } else if inputs.proposal_len > self.mtp_n_predict {
            Err(
                SpeculativeError::ProposalLength {
                    requested: inputs.proposal_len,
                    maximum: self.mtp_n_predict,
                },
            )
        } else {
            Ok(!inputs.lacks_states())
        }
    }

    /// Checks a step that asks for drafts before its states are looked at; `false` if it has no
    /// drafts.
    pub fn check_propose(&self, inputs: &ProposeInputs) -> (asks: Result<bool, SpeculativeError>)
        ensures
            asks == self.propose_gate(*inputs),
    {
        if !self.has_drafter {
            return Err(SpeculativeError::NoDrafter);
        }
        if inputs.seq_ids.len() == 0 || inputs.proposal_len == 0 || inputs.any_stochastic {
            return Ok(false);
        }
        if inputs.proposal_len > self.mtp_n_predict {
            return Err(
                SpeculativeError::ProposalLength {
                    requested: inputs.proposal_len,
                    maximum: self.mtp_n_predict,
                },
            );
        }
        if inputs.any_dormant {
            return Ok(false);
        }
        match inputs.taps {
            Some(taps) => Ok(taps == inputs.expected_taps),
            None => Ok(false),
        }
    }

    /// Decides which states the drafting model is given before it drafts; `None` if the step
    /// has no drafts.
    pub fn plan_propose(&self, inputs: &ProposeInputs) -> (plan: Result<
        Option<ProposePlan>,
        SpeculativeError,
    >)
        requires
            self.propose_gate(*inputs) == Ok::<bool, SpeculativeError>(true) ==> inputs.wf(),
        ensures
            match self.propose_gate(*inputs) {
                Err(e) => plan matches Err(f) && e == f,
                Ok(false) => plan matches Ok(None),
                Ok(true) => match inputs.collected(inputs.seq_ids@.len()) {
                    Collected::States { appends, rows } => plan matches Ok(Some(p)) && p.appends@
                        == appends && p.rows@ == rows,
                    Collected::Nothing => plan matches Ok(None),
                    Collected::Fault { error } => plan matches Err(f) && f == error,
                },
            },
    {
        if !self.check_propose(inputs)? {
            return Ok(None);
        }
        inputs.collect()
    }

    /// Decides which states the drafting model is given after a prompt; `None` if it is given
    /// none. The spans are the numbers of rows of the sequences, the starts where they begin; the
    /// shortest of the lists says how many sequences there are.
    pub fn plan_prefill(
        &self,
        taps: Option<usize>,
        expected_taps: usize,
        seq_ids: &Vec<usize>,
        starts: &Vec<usize>,
        spans: &Vec<usize>,
    ) -> (appends: Result<Option<Vec<CtxAppend>>, SpeculativeError>)
        ensures
            match appends {
                Ok(Some(a)) => {
                    &&& self.mtp_n_predict > 0
                    &&& self.has_drafter
                    &&& taps == Some(expected_taps)
                    &&& a@ == Seq::new(
                        shortest(seq_ids@.len(), starts@.len(), spans@.len()),
                        |i: int|
                            CtxAppend {
                                seq_id: seq_ids@[i],
                                rows: spans@[i],
                                start_pos: starts@[i],
                            },
                    )
                },
                Ok(None) => self.mtp_n_predict == 0 || (self.has_drafter && taps != Some(
                    expected_taps,
                )),
                Err(e) => self.mtp_n_predict > 0 && !self.has_drafter && e
                    == SpeculativeError::NoDrafter,
            },
    {
        if self.mtp_n_predict == 0 {
            return Ok(None);
        }
        if !self.has_drafter {
            return Err(SpeculativeError::NoDrafter);
        }
        match taps {
            Some(taps) => if taps != expected_taps {
                return Ok(None);
            },
            None => {
                return Ok(None);
            },
        }
        let mut appends: Vec<CtxAppend> = Vec::new();
        let mut i: usize = 0;
        while i < seq_ids.len() && i < starts.len() && i < spans.len()
            invariant
                i <= seq_ids@.len(),
                i <= starts@.len(),
                i <= spans@.len(),
                appends@.len() == i,
                forall|j: int|
                    0 <= j < i ==> #[trigger] appends@[j] == (CtxAppend {
                        seq_id: seq_ids@[j],
                        rows: spans@[j],
                        start_pos: starts@[j],
                    }),
            decreases seq_ids@.len() - i,
        {
            appends.push(CtxAppend { seq_id: seq_ids[i], rows: spans[i], start_pos: starts[i] });
            i += 1;
        }
        assert(appends@ =~= Seq::new(
            shortest(seq_ids@.len(), starts@.len(), spans@.len()),
            |i: int|
                CtxAppend { seq_id: seq_ids@[i], rows: spans@[i], start_pos: starts@[i] },
        ));
        Ok(Some(appends))
    }
}

/// Refuses to go on after a verification that had no checkpoints to go back to.
pub fn check_commit(committed: bool) -> (valid: Result<(), SpeculativeError>)
    ensures
        valid == if committed {
            Ok::<(), SpeculativeError>(())
        } else {
            Err(SpeculativeError::NoCheckpoints)
        },
{
    if committed {
        Ok(())
    } else {
        Err(SpeculativeError::NoCheckpoints)
    }
}

/// The states that the drafting model is given bring each of its sequences up to the length
/// that it has: they begin where the model has it continue, if it knows that.
pub proof fn given_states_continue(inputs: ProposeInputs, i: int)
    requires
        inputs.wf(),
        0 <= i < inputs.seq_ids@.len(),
        inputs.next_pos@[i] is Some,
        inputs.next_pos@[i]->0 <= inputs.base_lens@[i],
    ensures
        inputs.base_lens@[i] - inputs.needed(i) == inputs.next_pos@[i]->0,
{
}

/// How many rows of states are handed over for the sequences before sequence `i`.
pub open spec fn rows_before(inputs: ProposeInputs, i: int) -> int
    decreases i,
{
    if i <= 0 {
        0
    } else {
        rows_before(inputs, i - 1) + inputs.needed(i - 1)
    }
}

/// How many of the sequences before sequence `i` are handed rows at all.
pub open spec fn served_before(inputs: ProposeInputs, i: int) -> int
    decreases i,
{
    if i <= 0 {
        0
    } else {
        served_before(inputs, i - 1) + if inputs.needed(i - 1) > 0 {
            1int
        } else {
            0int
        }
    }
}

/// How much of a sequence is missing: from where the drafting model has it continue up to its
/// length, if the model knows that; otherwise all of its rows, but no more than its length.
pub proof fn missing_states_end_at_the_length(inputs: ProposeInputs, i: int)
    ensures
        inputs.next_pos@[i] matches Some(next) ==> next <= inputs.base_lens@[i] ==> next
            + inputs.needed(i) == inputs.base_lens@[i],
        inputs.next_pos@[i] is None || inputs.next_pos@[i]->0 > inputs.base_lens@[i] ==> {
            &&& inputs.needed(i) <= inputs.base_lens@[i]
            &&& inputs.needed(i) <= inputs.target_rows@[i].count
            &&& inputs.needed(i) == inputs.base_lens@[i] || inputs.needed(i)
                == inputs.target_rows@[i].count
        },
        0 <= inputs.needed(i) <= inputs.base_lens@[i],
{
}

proof fn rows_before_are_not_negative(inputs: ProposeInputs, i: int)
    ensures
        0 <= rows_before(inputs, i),
        0 <= served_before(inputs, i),
    decreases i,
{
    if i > 0 {
        rows_before_are_not_negative(inputs, i - 1);
        missing_states_end_at_the_length(inputs, i - 1);
    }
}

proof fn collected_lengths(inputs: ProposeInputs, n: nat)
    requires
        inputs.collected(n) is States,
    ensures
        inputs.collected(n)->rows.len() == rows_before(inputs, n as int),
        inputs.collected(n)->appends.len() == served_before(inputs, n as int),
    decreases n,
{
    if n > 0 {
        collected_lengths(inputs, (n - 1) as nat);
        missing_states_end_at_the_length(inputs, n - 1);
    }
}

/// Every row that is handed over for a sequence is one of the rows of its own entry of the batch,
/// and they are the last of its valid rows, in order: row number `j` of the `missing` rows of
/// sequence `i` is row `count - missing + j` of entry `batch_idx`, and stands behind the rows of
/// the sequences before it.
pub proof fn given_rows_are_the_last_of_their_sequence(
    inputs: ProposeInputs,
    n: nat,
    i: int,
    j: int,
)
    requires
        inputs.collected(n) is States,
        0 <= i < n,
        0 <= j < inputs.needed(i),
    ensures
        ({
            let row = inputs.collected(n)->rows[rows_before(inputs, i) + j];
            let t = inputs.target_rows@[i];
            &&& row == t.batch_idx * inputs.source_rows + t.count - inputs.needed(i) + j
            &&& t.batch_idx * inputs.source_rows <= row < (t.batch_idx + 1) * inputs.source_rows
            &&& row < t.batch_idx * inputs.source_rows + t.count
        }),
        0 <= rows_before(inputs, i) + j < inputs.collected(n)->rows.len(),
    decreases n,
{
    let t = inputs.target_rows@[i];
    let last = n - 1;
    collected_lengths(inputs, n);
    collected_lengths(inputs, last as nat);
    rows_before_are_not_negative(inputs, i);
    missing_states_end_at_the_length(inputs, i);
    missing_states_end_at_the_length(inputs, last);
    if i < last {
        given_rows_are_the_last_of_their_sequence(inputs, last as nat, i, j);
    } else {
        assert((t.batch_idx + 1) * inputs.source_rows == t.batch_idx * inputs.source_rows
            + inputs.source_rows) by (nonlinear_arith);
    }
}

/// Sequences of different entries of the batch are handed different rows.
pub proof fn sequences_share_no_rows(
    inputs: ProposeInputs,
    n: nat,
    i: int,
    j: int,
    i2: int,
    j2: int,
)
    requires
        inputs.collected(n) is States,
        0 <= i < n,
        0 <= j < inputs.needed(i),
        0 <= i2 < n,
        0 <= j2 < inputs.needed(i2),
        inputs.target_rows@[i].batch_idx != inputs.target_rows@[i2].batch_idx,
    ensures
        inputs.collected(n)->rows[rows_before(inputs, i) + j] != inputs.collected(
            n,
        )->rows[rows_before(inputs, i2) + j2],
{
    given_rows_are_the_last_of_their_sequence(inputs, n, i, j);
    given_rows_are_the_last_of_their_sequence(inputs, n, i2, j2);
    let a = inputs.target_rows@[i].batch_idx as int;
    let b = inputs.target_rows@[i2].batch_idx as int;
    let source = inputs.source_rows as int;
    assert(a < b ==> (a + 1) * source <= b * source) by (nonlinear_arith)
        requires
            source >= 0,
    ;
    assert(b < a ==> (b + 1) * source <= a * source) by (nonlinear_arith)
        requires
            source >= 0,
    ;
}

/// Each sequence that lacks states has one entry among what is handed over, behind those of the
/// sequences before it: it names the sequence and the number of its rows, and begins so that its
/// rows end at the length of the sequence. A sequence that lacks none has no entry.
pub proof fn given_states_name_their_sequence(inputs: ProposeInputs, n: nat, i: int)
    requires
        inputs.wf(),
        n <= inputs.seq_ids@.len(),
        inputs.collected(n) is States,
        0 <= i < n,
        inputs.needed(i) > 0,
    ensures
        ({
            let append = inputs.collected(n)->appends[served_before(inputs, i)];
            &&& append.seq_id == inputs.seq_ids@[i]
            &&& append.rows == inputs.needed(i)
            &&& append.start_pos + append.rows == inputs.base_lens@[i]
        }),
        inputs.collected(n)->appends.len() == served_before(inputs, n as int),
        inputs.collected(n)->rows.len() == rows_before(inputs, n as int),
    decreases n,
{
    let last = n - 1;
    collected_lengths(inputs, n);
    collected_lengths(inputs, last as nat);
    rows_before_are_not_negative(inputs, i);
    missing_states_end_at_the_length(inputs, i);
    if i < last {
        served_before_grows(inputs, i, last);
        given_states_name_their_sequence(inputs, last as nat, i);
    }
}

proof fn served_before_grows(inputs: ProposeInputs, i: int, n: int)
    requires
        0 <= i < n,
        inputs.needed(i) > 0,
    ensures
        served_before(inputs, i) < served_before(inputs, n),
    decreases n,
{
    if i < n - 1 {
        served_before_grows(inputs, i, n - 1);
    }
}

/// States are handed over exactly if every sequence that lacks some has enough valid rows, no
/// more of them than there are, and row numbers that fit in 32 bits.
pub proof fn states_are_given_if_all_are_there(inputs: ProposeInputs, n: nat)
    requires
        inputs.wf(),
        n <= inputs.seq_ids@.len(),
    ensures
        inputs.collected(n) is States <==> forall|i: int|
            0 <= i < n && #[trigger] inputs.needed(i) > 0 ==> {
                let t = inputs.target_rows@[i];
                &&& inputs.needed(i) <= t.count <= inputs.source_rows
                &&& t.batch_idx * inputs.source_rows + t.count <= 0x1_0000_0000
            },
    decreases n,
{
    if n > 0 {
        let last = n - 1;
        states_are_given_if_all_are_there(inputs, last as nat);
        missing_states_end_at_the_length(inputs, last);
        let t = inputs.target_rows@[last];
        assert(0 <= t.batch_idx * inputs.source_rows) by (nonlinear_arith);
        assert(inputs.needed(last) >= 0);
        if inputs.collected(n) is States {
            assert forall|i: int| 0 <= i < n && #[trigger] inputs.needed(i) > 0 implies {
                let t = inputs.target_rows@[i];
                &&& inputs.needed(i) <= t.count <= inputs.source_rows
                &&& t.batch_idx * inputs.source_rows + t.count <= 0x1_0000_0000
            } by {
                if i < last {
                }
            }
        }
    }
}

/// A step is asked for drafts exactly if there is a model to draft with, a sequence, a number of
/// tokens that the model was set up for, no sequence that is drawn at random or put aside, and
/// the states of the layers that the model takes.
pub proof fn drafts_are_asked_for_if_they_can_be_had(model: Model, inputs: ProposeInputs)
    ensures
        model.propose_gate(inputs) == Ok::<bool, SpeculativeError>(true) <==> {
            &&& model.has_drafter
            &&& inputs.seq_ids@.len() > 0
            &&& 0 < inputs.proposal_len <= model.mtp_n_predict
            &&& !inputs.any_stochastic
            &&& !inputs.any_dormant
            &&& inputs.taps == Some(inputs.expected_taps)
        },
        model.propose_gate(inputs) == Err::<bool, SpeculativeError>(SpeculativeError::NoDrafter)
            <==> !model.has_drafter,
        model.propose_gate(inputs) is Err && model.has_drafter <==> model.has_drafter
            && inputs.seq_ids@.len() > 0 && inputs.proposal_len > model.mtp_n_predict
            && !inputs.any_stochastic,
{
}

/// A number of tokens that is asked for is drafted if it is one at least and leaves room in the
/// block for the token that the draft starts from; without one, the whole block is used.
pub proof fn drafts_fit_their_block(requested: Option<usize>, block: usize)
    ensures
        requested is None && block > 0 ==> chosen_n_predict(requested, block) is Ok
            && chosen_n_predict(requested, block)->Ok_0 + 1 == block,
        requested matches Some(n) ==> {
            &&& chosen_n_predict(requested, block) is Ok <==> 1 <= n && n + 1 <= block
            &&& chosen_n_predict(requested, block) is Ok ==> chosen_n_predict(
                requested,
                block,
            )->Ok_0 == n
            &&& chosen_n_predict(requested, block) == Err::<usize, SpeculativeError>(
                SpeculativeError::ZeroTokens,
            ) <==> n == 0
        },
{
}

/// The tokens that drafts start from stand sequence by sequence, in blocks of one token and its
/// masks.
pub proof fn noise_stands_in_blocks(ids: Seq<u32>, n_predict: usize, a: int, i: int)
    requires
        0 <= i <= n_predict,
    ensures
        noise_at(ids, a, i, n_predict) == ids[a * n_predict + a + i],
{
    assert(a * (n_predict + 1) == a * n_predict + a) by (nonlinear_arith);
}

/// The shortest of three lengths is one of them, and none of them is shorter.
pub proof fn shortest_is_a_lower_bound(a: nat, b: nat, c: nat)
    ensures
        shortest(a, b, c) <= a,
        shortest(a, b, c) <= b,
        shortest(a, b, c) <= c,
        shortest(a, b, c) == a || shortest(a, b, c) == b || shortest(a, b, c) == c,
{
}

/// A row number that does not fit in 32 bits is named: the first of the sequence's rows that does
/// not, unless the rows cannot be numbered at all.
pub proof fn row_numbers_that_do_not_fit(inputs: ProposeInputs, i: nat)
    requires
        inputs.collected(i) is States,
        inputs.needed(i as int) > 0,
        inputs.needed(i as int) <= inputs.target_rows@[i as int].count <= inputs.source_rows,
    ensures
        ({
            let t = inputs.target_rows@[i as int];
            let first = t.batch_idx * inputs.source_rows + t.count - inputs.needed(i as int);
            let end = t.batch_idx * inputs.source_rows + t.count;
            match inputs.collected(i + 1) {
                Collected::Fault { error } => match error {
                    SpeculativeError::RowRange { row } => {
                        &&& first <= usize::MAX
                        &&& end > 0x1_0000_0000
                        &&& first > u32::MAX ==> row == first
                        &&& first <= u32::MAX && usize::MAX > u32::MAX ==> row == u32::MAX + 1
                    },
                    SpeculativeError::RowOverflow => first > usize::MAX || t.batch_idx
                        * inputs.source_rows > usize::MAX,
                    _ => false,
                },
                Collected::States { .. } => end <= 0x1_0000_0000,
                Collected::Nothing => false,
            }
        }),
{
    missing_states_end_at_the_length(inputs, i as int);
}

/// Nothing is handed over for a sequence that lacks more rows than are valid, or has more valid
/// rows than there are; a sequence that lacks none changes nothing.
pub proof fn missing_rows_end_the_draft(inputs: ProposeInputs, i: nat)
    requires
        inputs.collected(i) is States,
    ensures
        inputs.needed(i as int) == 0 ==> inputs.collected(i + 1) == inputs.collected(i),
        inputs.needed(i as int) > 0 ==> (inputs.collected(i + 1) is Nothing <==> inputs.needed(
            i as int,
        ) > inputs.target_rows@[i as int].count || inputs.target_rows@[i as int].count
            > inputs.source_rows),
{
    missing_states_end_at_the_length(inputs, i as int);
}

} // verus!
