//! Wire-level records of the model-serving daemon, the bounded relay that
//! carries streamed chat events from the transport task to the session
//! engine, and the producer-side backpressure policy.

use vstd::prelude::*;
use std::collections::HashMap;

verus! {

/// An installed model as the daemon reports it.
#[derive(Debug, Clone)]
pub struct Model {
    pub name: String,
    pub size: u64,
    pub details: Option<ModelDetails>,
}

#[derive(Debug, Clone)]
pub struct ModelDetails {
    pub parameter_size: String,
}

/// A loaded model as the daemon's process list reports it.
#[derive(Debug, Clone)]
pub struct RunningModel {
    pub name: String,
    pub size: u64,
    pub size_vram: Option<u64>,
}

#[derive(Debug, Clone)]
pub struct VersionResponse {
    pub version: String,
}

/// An entry of the remote model catalog.
#[derive(Debug, Clone)]
pub struct ModelsDevModel {
    pub id: String,
    pub open_weights: Option<bool>,
    pub limit: Option<Limit>,
}

#[derive(Debug, Clone)]
pub struct Limit {
    pub context: u64,
}

/// A catalog provider and the models it lists, keyed by model name.
#[derive(Debug, Clone)]
pub struct Provider {
    pub models: HashMap<String, ModelsDevModel>,
}

pub ghost struct ModelsDevModelV {
    pub id: Seq<char>,
    pub open_weights: Option<bool>,
    pub context: Option<int>,
}

impl View for ModelsDevModel {
    type V = ModelsDevModelV;

    open spec fn view(&self) -> ModelsDevModelV {
        ModelsDevModelV {
            id: self.id@,
            open_weights: self.open_weights,
            context: match self.limit {
                Some(l) => Some(l.context as int),
                None => None,
            },
        }
    }
}

/// `needle` occurs somewhere in `hay`.
pub open spec fn contains_seq(hay: Seq<char>, needle: Seq<char>) -> bool {
    exists|i: int|
        0 <= i <= hay.len() - needle.len() && #[trigger] hay.subrange(i, i + needle.len())
            == needle
}

/// The characters after the last slash; the whole sequence when it has no
/// slash.
pub open spec fn after_last_slash(s: Seq<char>) -> Seq<char>
    decreases s.len(),
{
    if s.len() == 0 {
        s
    } else if s.last() == '/' {
        Seq::<char>::empty()
    } else {
        after_last_slash(s.drop_last()).push(s.last())
    }
}

/// Strict lexicographic order on character sequences, by code point.
pub open spec fn lex_lt(a: Seq<char>, b: Seq<char>) -> bool
    decreases a.len(),
{
    if b.len() == 0 {
        false
    } else if a.len() == 0 {
        true
    } else if (a[0] as int) < (b[0] as int) {
        true
    } else if (a[0] as int) > (b[0] as int) {
        false
    } else {
        lex_lt(a.skip(1), b.skip(1))
    }
}

/// Of two distinct sequences exactly one is lexicographically smaller.
pub proof fn lemma_lex_trichotomy(a: Seq<char>, b: Seq<char>)
    ensures
        lex_lt(a, b) ==> !lex_lt(b, a) && a != b,
        !lex_lt(a, b) && !lex_lt(b, a) ==> a == b,
    decreases a.len() + b.len(),
{
    if a.len() > 0 && b.len() > 0 {
        if a[0] == b[0] {
            lemma_lex_trichotomy(a.skip(1), b.skip(1));
            if a.skip(1) == b.skip(1) {
                assert(a =~= b) by {
                    assert forall|k: int| 0 <= k < a.len() implies a[k] == b[k] by {
                        if k > 0 {
                            assert(a[k] == a.skip(1)[k - 1]);
                            assert(b[k] == b.skip(1)[k - 1]);
                        }
                    }
                }
            }
            if a == b {
                assert(a.skip(1) =~= b.skip(1));
            }
            if lex_lt(a, b) && a == b {
                assert(false);
            }
        }
    }
}

/// Compares two catalog entries by id, code point by code point.
pub fn cmp_model_ids(a: &ModelsDevModel, b: &ModelsDevModel) -> (o: core::cmp::Ordering)
    ensures
        (o == core::cmp::Ordering::Less) == lex_lt(a.id@, b.id@),
        (o == core::cmp::Ordering::Equal) == (a.id@ == b.id@),
        (o == core::cmp::Ordering::Greater) == lex_lt(b.id@, a.id@),
{
    proof {
        lemma_lex_trichotomy(a.id@, b.id@);
    }
    let av = crate::text::chars_of(a.id.as_str());
    let bv = crate::text::chars_of(b.id.as_str());
    let na = av.len();
    let nb = bv.len();
    let n = if na < nb {
        na
    } else {
        nb
    };
    proof {
        assert(av@.skip(0) =~= av@);
        assert(bv@.skip(0) =~= bv@);
        assert(av@.take(0) =~= bv@.take(0));
    }
    for i in 0..n
        invariant
            na == av@.len(),
            nb == bv@.len(),
            av@ == a.id@,
            bv@ == b.id@,
            n == if na < nb {
                na
            } else {
                nb
            },
            av@.take(i as int) == bv@.take(i as int),
            lex_lt(a.id@, b.id@) == lex_lt(av@.skip(i as int), bv@.skip(i as int)),
            lex_lt(b.id@, a.id@) == lex_lt(bv@.skip(i as int), av@.skip(i as int)),
            (a.id@ == b.id@) == (av@.skip(i as int) == bv@.skip(i as int)),
    {
        let ca = av[i];
        let cb = bv[i];
        let ghost ra = av@.skip(i as int);
        let ghost rb = bv@.skip(i as int);
        proof {
            assert(ra[0] == av@[i as int]);
            assert(rb[0] == bv@[i as int]);
            assert(ra.skip(1) =~= av@.skip(i + 1));
            assert(rb.skip(1) =~= bv@.skip(i + 1));
            if ra.skip(1) == rb.skip(1) && ra[0] == rb[0] {
                assert(ra =~= rb) by {
                    assert forall|k: int| 0 <= k < ra.len() implies ra[k] == rb[k] by {
                        if k > 0 {
                            assert(ra[k] == ra.skip(1)[k - 1]);
                            assert(rb[k] == rb.skip(1)[k - 1]);
                        }
                    }
                }
            }
            if ra == rb {
                assert(ra.skip(1) =~= rb.skip(1));
            }
        }
        if ca != cb {
            if ca < cb {
                return core::cmp::Ordering::Less;
            } else {
                return core::cmp::Ordering::Greater;
            }
        }
        proof {
            assert(av@.take(i + 1) =~= av@.take(i as int).push(av@[i as int]));
            assert(bv@.take(i + 1) =~= bv@.take(i as int).push(bv@[i as int]));
        }
    }
    proof {
        let ra = av@.skip(n as int);
        let rb = bv@.skip(n as int);
        if na == nb {
            assert(ra =~= Seq::<char>::empty());
            assert(rb =~= Seq::<char>::empty());
            assert(ra =~= rb);
        } else if na < nb {
            assert(ra =~= Seq::<char>::empty());
            assert(rb.len() > 0);
            assert(ra != rb);
        } else {
            assert(rb =~= Seq::<char>::empty());
            assert(ra.len() > 0);
            assert(ra != rb);
        }
    }
    if na == nb {
        core::cmp::Ordering::Equal
    } else if na < nb {
        core::cmp::Ordering::Less
    } else {
        core::cmp::Ordering::Greater
    }
}

/// Relies on `str::contains`: whether the substring occurs in the string.
#[verifier::external_body]
pub fn str_contains(hay: &str, needle: &str) -> (r: bool)
    ensures
        r == contains_seq(hay@, needle@),
{
    hay.contains(needle)
}

/// Relies on `str::split` with a slash separator: its last part is the text
/// after the last slash, or the whole string when it has none.
#[verifier::external_body]
fn tail_after_last_slash(s: &str) -> (r: String)
    ensures
        r@ == after_last_slash(s@),
{
    match s.split('/').next_back() {
        Some(tail) => tail.to_owned(),
        None => s.to_owned(),
    }
}

/// Providers whose models may run on the daemon: a known name, or one that
/// mentions the daemon's model family.
pub open spec fn spec_provider_keep(name: Seq<char>) -> bool {
    ||| name == "ollama"@
    ||| name == "llama"@
    ||| name == "meta"@
    ||| name == "mistral"@
    ||| name == "microsoft"@
    ||| contains_seq(name, "llama"@)
}

/// Catalog entries worth offering: open-weight models, or ids that mention
/// a known-compatible family.
pub open spec fn spec_model_keep(m: ModelsDevModelV) -> bool {
    ||| m.open_weights == Some(true)
    ||| contains_seq(m.id, "llama"@)
    ||| contains_seq(m.id, "mistral"@)
    ||| contains_seq(m.id, "phi"@)
    ||| contains_seq(m.id, "gemma"@)
    ||| contains_seq(m.id, "qwen"@)
    ||| contains_seq(m.id, "deepseek"@)
    ||| contains_seq(m.id, "codestral"@)
    ||| contains_seq(m.id, "mixtral"@)
}

/// A kept entry with its id shortened to the part after the last slash.
pub open spec fn spec_clean_model(m: ModelsDevModelV) -> ModelsDevModelV {
    ModelsDevModelV { id: after_last_slash(m.id), ..m }
}

/// The entries one provider contributes, in its order: those worth
/// offering, ids cleaned.
pub open spec fn spec_kept_models(models: Seq<ModelsDevModelV>) -> Seq<ModelsDevModelV> {
    models.filter(|m: ModelsDevModelV| spec_model_keep(m)).map_values(
        |m: ModelsDevModelV| spec_clean_model(m),
    )
}

/// What the first `i` providers contribute, in order.
pub open spec fn spec_catalog_prefix(
    provs: Seq<(Seq<char>, Seq<ModelsDevModelV>)>,
    i: int,
) -> Seq<ModelsDevModelV>
    decreases i,
{
    if i <= 0 {
        Seq::<ModelsDevModelV>::empty()
    } else {
        spec_catalog_prefix(provs, i - 1) + (if spec_provider_keep(provs[i - 1].0) {
            spec_kept_models(provs[i - 1].1)
        } else {
            Seq::<ModelsDevModelV>::empty()
        })
    }
}

pub open spec fn provider_views(
    providers: Seq<(String, Vec<ModelsDevModel>)>,
) -> Seq<(Seq<char>, Seq<ModelsDevModelV>)> {
    providers.map_values(
        |p: (String, Vec<ModelsDevModel>)|
            (p.0@, p.1@.map_values(|m: ModelsDevModel| m@)),
    )
}

proof fn lemma_kept_empty()
    ensures
        spec_kept_models(Seq::<ModelsDevModelV>::empty()) == Seq::<ModelsDevModelV>::empty(),
{
    reveal(Seq::filter);
    assert(spec_kept_models(Seq::<ModelsDevModelV>::empty())
        =~= Seq::<ModelsDevModelV>::empty());
}

proof fn lemma_kept_step(s: Seq<ModelsDevModelV>)
    requires
        s.len() > 0,
    ensures
        spec_kept_models(s) == if spec_model_keep(s.last()) {
            spec_kept_models(s.drop_last()).push(spec_clean_model(s.last()))
        } else {
            spec_kept_models(s.drop_last())
        },
{
    reveal(Seq::filter);
    let pred = |m: ModelsDevModelV| spec_model_keep(m);
    let clean = |m: ModelsDevModelV| spec_clean_model(m);
    if pred(s.last()) {
        assert(s.filter(pred) == s.drop_last().filter(pred).push(s.last()));
        assert(s.filter(pred).map_values(clean) =~= s.drop_last().filter(pred).map_values(
            clean,
        ).push(spec_clean_model(s.last())));
    } else {
        assert(s.filter(pred) == s.drop_last().filter(pred));
    }
}

fn keep_provider(name: &str) -> (r: bool)
    ensures
        r == spec_provider_keep(name@),
{
    crate::text::str_eq(name, "ollama") || crate::text::str_eq(name, "llama")
        || crate::text::str_eq(name, "meta") || crate::text::str_eq(name, "mistral")
        || crate::text::str_eq(name, "microsoft") || str_contains(name, "llama")
}

fn keep_model(m: &ModelsDevModel) -> (r: bool)
    ensures
        r == spec_model_keep(m@),
{
    let open = match m.open_weights {
        Some(b) => b,
        None => false,
    };
    open || str_contains(m.id.as_str(), "llama") || str_contains(m.id.as_str(), "mistral")
        || str_contains(m.id.as_str(), "phi") || str_contains(m.id.as_str(), "gemma")
        || str_contains(m.id.as_str(), "qwen") || str_contains(m.id.as_str(), "deepseek")
        || str_contains(m.id.as_str(), "codestral") || str_contains(m.id.as_str(), "mixtral")
}

/// The catalog entries worth offering, provider by provider, in the order
/// they were handed in: providers kept as [`spec_provider_keep`] says,
/// their models as [`spec_model_keep`], ids cleaned of their provider
/// prefix.  Display order and duplicate removal are the caller's concern;
/// [`cmp_model_ids`] gives the order to sort by.
pub fn select_compatible_models(providers: &Vec<(String, Vec<ModelsDevModel>)>) -> (r: Vec<ModelsDevModel>)
    ensures
        r@.map_values(|m: ModelsDevModel| m@) == spec_catalog_prefix(
            provider_views(providers@),
            providers@.len() as int,
        ),
{
    let ghost provs = provider_views(providers@);
    let mut out: Vec<ModelsDevModel> = Vec::new();
    proof {
        assert(out@.map_values(|m: ModelsDevModel| m@) =~= spec_catalog_prefix(provs, 0));
    }
    let np = providers.len();
    for pi in 0..np
        invariant
            np == providers@.len(),
            provs == provider_views(providers@),
            out@.map_values(|m: ModelsDevModel| m@) == spec_catalog_prefix(provs, pi as int),
    {
        proof {
            assert(provs[pi as int].0 == providers@[pi as int].0@);
            assert(provs[pi as int].1 == providers@[pi as int].1@.map_values(
                |m: ModelsDevModel| m@,
            ));
        }
        let keep = keep_provider(providers[pi].0.as_str());
        if keep {
            let models = &providers[pi].1;
            let ghost mv = provs[pi as int].1;
            let ghost base = out@.map_values(|m: ModelsDevModel| m@);
            proof {
                assert(mv.take(0) =~= Seq::<ModelsDevModelV>::empty());
                lemma_kept_empty();
                assert(base + spec_kept_models(mv.take(0)) =~= base);
            }
            let nm = models.len();
            for mi in 0..nm
                invariant
                    nm == models@.len(),
                    mv == models@.map_values(|m: ModelsDevModel| m@),
                    out@.map_values(|m: ModelsDevModel| m@) == base + spec_kept_models(
                        mv.take(mi as int),
                    ),
            {
                let m = &models[mi];
                let ghost t_next = mv.take(mi + 1);
                proof {
                    assert(t_next.drop_last() =~= mv.take(mi as int));
                    assert(t_next.last() == mv[mi as int]);
                    assert(m@ == mv[mi as int]);
                    lemma_kept_step(t_next);
                }
                if keep_model(m) {
                    let cleaned = tail_after_last_slash(m.id.as_str());
                    let limit = match &m.limit {
                        Some(l) => Some(Limit { context: l.context }),
                        None => None,
                    };
                    let entry = ModelsDevModel {
                        id: cleaned,
                        open_weights: m.open_weights,
                        limit,
                    };
                    proof {
                        assert(entry@ == spec_clean_model(mv[mi as int]));
                    }
                    let ghost before = out@.map_values(|m: ModelsDevModel| m@);
                    out.push(entry);
                    proof {
                        assert(out@.map_values(|m: ModelsDevModel| m@) =~= before.push(
                            spec_clean_model(mv[mi as int]),
                        ));
                    }
                }
            }
            proof {
                assert(mv.take(nm as int) =~= mv);
                assert(spec_catalog_prefix(provs, pi + 1) == spec_catalog_prefix(
                    provs,
                    pi as int,
                ) + spec_kept_models(mv));
                assert(out@.map_values(|m: ModelsDevModel| m@) =~= spec_catalog_prefix(
                    provs,
                    pi + 1,
                ));
            }
        } else {
            proof {
                assert(spec_catalog_prefix(provs, pi + 1) == spec_catalog_prefix(
                    provs,
                    pi as int,
                ) + Seq::<ModelsDevModelV>::empty());
                assert(out@.map_values(|m: ModelsDevModel| m@) =~= spec_catalog_prefix(
                    provs,
                    pi + 1,
                ));
            }
        }
    }
    proof {
        assert(provs.len() == np);
    }
    out
}

/// One decoded unit of the streamed chat response.  Every field is optional
/// on the wire; absence of `done` means the turn is not finished.
#[derive(Debug, Clone, PartialEq)]
pub struct ChatResponse {
    pub message: Option<ChatMessage>,
    pub done: Option<bool>,
    pub eval_count: Option<u32>,
}

/// A role-tagged text fragment inside a streamed chat event.
#[derive(Debug, Clone, PartialEq)]
pub struct ChatMessage {
    pub role: String,
    pub content: String,
}

pub ghost struct ChatMessageV {
    pub role: Seq<char>,
    pub content: Seq<char>,
}

impl View for ChatMessage {
    type V = ChatMessageV;

    open spec fn view(&self) -> ChatMessageV {
        ChatMessageV { role: self.role@, content: self.content@ }
    }
}

pub ghost struct ChatResponseV {
    pub message: Option<ChatMessageV>,
    pub done: Option<bool>,
    pub eval_count: Option<int>,
}

impl View for ChatResponse {
    type V = ChatResponseV;

    open spec fn view(&self) -> ChatResponseV {
        ChatResponseV {
            message: match self.message {
                Some(ref m) => Some(m@),
                None => None,
            },
            done: self.done,
            eval_count: match self.eval_count {
                Some(c) => Some(c as int),
                None => None,
            },
        }
    }
}

/// A streamed event ends the turn when it carries `done = true`.
pub open spec fn spec_event_terminates_turn(ev: ChatResponseV) -> bool {
    ev.done == Some(true)
}

pub fn event_terminates_turn(ev: &ChatResponse) -> (r: bool)
    ensures
        r == spec_event_terminates_turn(ev@),
{
    match ev.done {
        Some(d) => d,
        None => false,
    }
}

// ---------------------------------------------------------------------------
// The relay: a bounded single-producer/single-consumer queue of chat events.
// The queue itself is tokio's bounded mpsc channel; the policy around it is
// verified code below.

#[verifier::external_type_specification]
#[verifier::external_body]
#[verifier::reject_recursive_types(T)]
pub struct ExMpscSender<T>(tokio::sync::mpsc::Sender<T>);

#[verifier::external_type_specification]
#[verifier::external_body]
#[verifier::reject_recursive_types(T)]
pub struct ExMpscReceiver<T>(tokio::sync::mpsc::Receiver<T>);

/// What one non-blocking enqueue attempt reported.  On `Full` and `Closed`
/// the event comes back to the caller.
#[derive(Debug)]
pub enum SendOutcome {
    Sent,
    Full(ChatResponse),
    Closed(ChatResponse),
}

/// What one non-blocking dequeue attempt reported.  `Disconnected` is
/// terminal: the producer is gone and nothing further will ever arrive.
#[derive(Debug)]
pub enum RecvOutcome {
    Event(ChatResponse),
    Empty,
    Disconnected,
}

/// Relies on `tokio::sync::mpsc::channel`: creates a bounded channel with the
/// given capacity.  The capacity bound keeps the call from panicking: tokio
/// asserts a positive buffer no larger than its semaphore's permit limit,
/// and one million sits far below that limit on every machine.
#[verifier::external_body]
pub fn relay_channel(capacity: usize) -> (r: (
    tokio::sync::mpsc::Sender<ChatResponse>,
    tokio::sync::mpsc::Receiver<ChatResponse>,
))
    requires
        1 <= capacity <= 1000000,
{
    tokio::sync::mpsc::channel(capacity)
}

/// Relies on `tokio::sync::mpsc::Sender::try_send`: enqueues without
/// blocking; a full queue reports `Full` and a dropped receiver `Closed`,
/// both handing the event back unchanged.  Whether the queue has room
/// depends on the consumer task, so nothing more is promised.
#[verifier::external_body]
pub fn relay_try_send(
    tx: &tokio::sync::mpsc::Sender<ChatResponse>,
    event: ChatResponse,
) -> (r: SendOutcome)
    ensures
        match r {
            SendOutcome::Sent => true,
            SendOutcome::Full(e) => e == event,
            SendOutcome::Closed(e) => e == event,
        },
{
    match tx.try_send(event) {
        Ok(()) => SendOutcome::Sent,
        Err(tokio::sync::mpsc::error::TrySendError::Full(e)) => SendOutcome::Full(e),
        Err(tokio::sync::mpsc::error::TrySendError::Closed(e)) => SendOutcome::Closed(e),
    }
}

/// Relies on `tokio::sync::mpsc::Receiver::try_recv`: dequeues without
/// blocking; `Empty` means nothing is buffered right now, `Disconnected`
/// that the producer is gone.  What arrives depends on the producer task,
/// so nothing is promised about the outcome.
#[verifier::external_body]
pub fn relay_try_recv(
    rx: &mut tokio::sync::mpsc::Receiver<ChatResponse>,
) -> (r: RecvOutcome)
{
    match rx.try_recv() {
        Ok(ev) => RecvOutcome::Event(ev),
        Err(tokio::sync::mpsc::error::TryRecvError::Empty) => RecvOutcome::Empty,
        Err(tokio::sync::mpsc::error::TryRecvError::Disconnected) => RecvOutcome::Disconnected,
    }
}

/// What the producer does after its first enqueue attempt: deliver and move
/// on, pause once and retry, or stop because the consumer is gone.
#[derive(Debug)]
pub enum OfferOutcome {
    Delivered,
    MustPause(ChatResponse),
    ConsumerGone,
}

/// What the producer does after the single retry: the event was delivered,
/// dropped (bounded trade-off: a slow consumer loses events, the stream
/// never stalls), or the consumer is gone.
#[derive(Debug, PartialEq, Eq, Structural)]
pub enum RetryOutcome {
    Delivered,
    Dropped,
    ConsumerGone,
}

/// First enqueue attempt for one event.  A full queue asks the caller to
/// pause briefly and retry exactly once with [`offer_event_retry`]; a closed
/// queue ends the producer's work.
pub fn offer_event(
    tx: &tokio::sync::mpsc::Sender<ChatResponse>,
    event: ChatResponse,
) -> (r: OfferOutcome)
    ensures
        match r {
            OfferOutcome::Delivered => true,
            OfferOutcome::MustPause(e) => e == event,
            OfferOutcome::ConsumerGone => true,
        },
{
    match relay_try_send(tx, event) {
        SendOutcome::Sent => OfferOutcome::Delivered,
        SendOutcome::Full(e) => OfferOutcome::MustPause(e),
        SendOutcome::Closed(_) => OfferOutcome::ConsumerGone,
    }
}

/// The single retry after the pause.  If the queue is still full the event
/// is dropped rather than blocking the network read loop.
pub fn offer_event_retry(
    tx: &tokio::sync::mpsc::Sender<ChatResponse>,
    event: ChatResponse,
) -> (r: RetryOutcome)
{
    match relay_try_send(tx, event) {
        SendOutcome::Sent => RetryOutcome::Delivered,
        SendOutcome::Full(_) => RetryOutcome::Dropped,
        SendOutcome::Closed(_) => RetryOutcome::ConsumerGone,
    }
}

} // verus!
