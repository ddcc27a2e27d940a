//! Decisions of the main loop: what a grid run does with each message from
//! the market feeds.  The loop itself (receiving messages, timing, feeding the
//! slots) is driven by the caller, which hands in what it observed as plain
//! flags and performs the actions returned.
use vstd::prelude::*;

verus! {

/// Phase of a grid run.
#[derive(Clone, Copy, Debug, PartialEq, Eq)]
pub struct RunPhase {
    /// The warm-up period has elapsed and slots may quote.
    pub warmup_complete: bool,
}

/// What to do after an order-book update.
#[derive(Clone, Copy, Debug, PartialEq, Eq)]
pub struct BookUpdateActions {
    /// Record the new mid price (else clear it: the book has no mid).
    pub set_mid: bool,
    /// Feed every slot's calculator and check its resting orders for fills.
    pub feed_slots: bool,
    /// Let every slot compute quotes and send order operations.
    pub tick_slots: bool,
    /// Log the grid summary and flush all slot states and trade logs.
    pub log_summary_and_flush: bool,
    /// The warm-up period ends with this update.
    pub finish_warmup: bool,
    /// Log warm-up progress.
    pub log_warmup_progress: bool,
}

/// What a book update observed besides the book itself.
#[derive(Clone, Copy, Debug, PartialEq, Eq)]
pub struct BookUpdateContext {
    /// The book has a mid price.
    pub has_mid: bool,
    /// At least one slot's calculator is warmed up.
    pub any_slot_warmed_up: bool,
    /// The summary interval has passed since the last summary.
    pub summary_due: bool,
    /// The warm-up period has passed since the start.
    pub warmup_elapsed: bool,
    /// A minute has passed since warm-up progress was last logged.
    pub warmup_log_due: bool,
}

/// The actions for a book update in phase `phase`.
pub open spec fn book_update_actions(phase: RunPhase, ctx: BookUpdateContext) -> BookUpdateActions {
    let live = ctx.has_mid && phase.warmup_complete;
    let warming = ctx.has_mid && !phase.warmup_complete;
    BookUpdateActions {
        set_mid: ctx.has_mid,
        feed_slots: ctx.has_mid,
        tick_slots: live && ctx.any_slot_warmed_up,
        log_summary_and_flush: live && ctx.summary_due,
        finish_warmup: warming && ctx.warmup_elapsed,
        log_warmup_progress: warming && !ctx.warmup_elapsed && ctx.warmup_log_due,
    }
}

/// Handles one order-book update: returns the actions to perform and moves
/// the run out of warm-up once the warm-up period has elapsed.  Slots quote
/// only after warm-up and only while some calculator is warmed up.
pub fn on_book_update(phase: &mut RunPhase, ctx: BookUpdateContext) -> (actions: BookUpdateActions)
    ensures
        actions == book_update_actions(*old(phase), ctx),
        final(phase).warmup_complete == (old(phase).warmup_complete || actions.finish_warmup),
        actions.set_mid == ctx.has_mid,
        actions.feed_slots == ctx.has_mid,
        actions.tick_slots == (ctx.has_mid && old(phase).warmup_complete && ctx.any_slot_warmed_up),
        actions.log_summary_and_flush == (ctx.has_mid && old(phase).warmup_complete && ctx.summary_due),
        actions.finish_warmup == (ctx.has_mid && !old(phase).warmup_complete && ctx.warmup_elapsed),
        actions.log_warmup_progress == (ctx.has_mid && !old(phase).warmup_complete
            && !ctx.warmup_elapsed && ctx.warmup_log_due),
{
    let mut actions = BookUpdateActions {
        set_mid: ctx.has_mid,
        feed_slots: ctx.has_mid,
        tick_slots: false,
        log_summary_and_flush: false,
        finish_warmup: false,
        log_warmup_progress: false,
    };
    if !ctx.has_mid {
        return actions;
    }
    if phase.warmup_complete {
        actions.tick_slots = ctx.any_slot_warmed_up;
        actions.log_summary_and_flush = ctx.summary_due;
    } else if ctx.warmup_elapsed {
        phase.warmup_complete = true;
        actions.finish_warmup = true;
    } else {
        actions.log_warmup_progress = ctx.warmup_log_due;
    }
    actions
}

/// After warm-up, every book update with a mid price ticks the slots as soon
/// as some calculator is warmed up: ticking does not wait for the summary
/// interval, and whether a summary is due changes nothing about it.
pub proof fn lemma_slots_tick_on_every_warm_update(phase: RunPhase, ctx: BookUpdateContext, summary_due: bool)
    ensures
        book_update_actions(phase, ctx).tick_slots == (ctx.has_mid && phase.warmup_complete
            && ctx.any_slot_warmed_up),
        book_update_actions(phase, BookUpdateContext { summary_due, ..ctx }).tick_slots
            == book_update_actions(phase, ctx).tick_slots,
        phase.warmup_complete && ctx.has_mid && ctx.any_slot_warmed_up ==> book_update_actions(
            phase,
            ctx,
        ).tick_slots,
{
}

/// Summaries are logged, after warm-up, exactly on the updates where one is
/// due, whether or not any slot quotes on them.
pub proof fn lemma_summary_only_when_due(phase: RunPhase, ctx: BookUpdateContext, any_warm: bool)
    ensures
        book_update_actions(phase, ctx).log_summary_and_flush == (ctx.has_mid && phase.warmup_complete
            && ctx.summary_due),
        book_update_actions(phase, BookUpdateContext { any_slot_warmed_up: any_warm, ..ctx }).log_summary_and_flush
            == book_update_actions(phase, ctx).log_summary_and_flush,
{
}

/// Once the warm-up period is over it never starts again: no book update
/// takes a run back into warm-up.
pub proof fn lemma_warmup_is_final(phase: RunPhase, ctx: BookUpdateContext)
    requires
        phase.warmup_complete,
    ensures
        !book_update_actions(phase, ctx).finish_warmup,
        !book_update_actions(phase, ctx).log_warmup_progress,
{
}

/// No slot quotes before the warm-up period is over.
pub proof fn lemma_no_quotes_during_warmup(phase: RunPhase, ctx: BookUpdateContext)
    requires
        !phase.warmup_complete,
    ensures
        !book_update_actions(phase, ctx).tick_slots,
        !book_update_actions(phase, ctx).log_summary_and_flush,
{
}

/// The alpha of the external depth feed overrides the local one only while
/// that feed is warmed up and fresh.
pub fn use_external_alpha(alpha_warmed_up: bool, alpha_stale: bool) -> (use_it: bool)
    ensures
        use_it == (alpha_warmed_up && !alpha_stale),
{
    alpha_warmed_up && !alpha_stale
}

/// Which external feed a disconnect notice refers to.
#[derive(Clone, Copy, Debug, PartialEq, Eq)]
pub enum ExternalFeed {
    /// The best-bid/offer feed.
    BestBidOffer,
    /// The depth (alpha) feed.
    Depth,
}

/// The feed to reset when the external feed named `feed` disconnects: the
/// best-bid/offer feed for `bbo`, the depth feed for any other name.
pub fn disconnected_feed(feed: &str) -> (which: ExternalFeed)
    ensures
        which == (if feed@ == "bbo"@ {
            ExternalFeed::BestBidOffer
        } else {
            ExternalFeed::Depth
        }),
{
    broadcast use vstd::string::group_string_axioms;

    proof {
        reveal_strlit("bbo");
    }
    let n = feed.unicode_len();
    if n != 3 {
        return ExternalFeed::Depth;
    }
    if feed.get_char(0) == 'b' && feed.get_char(1) == 'b' && feed.get_char(2) == 'o' {
        assert(feed@ =~= "bbo"@);
        ExternalFeed::BestBidOffer
    } else {
        ExternalFeed::Depth
    }
}

/// Something the main loop hears that may end the run.
#[derive(Clone, Copy, Debug, PartialEq, Eq)]
pub enum LoopSignal {
    /// The exchange order-book feed closed its channel.
    ExchangeFeedClosed,
    /// The external feeds closed their channel.
    ExternalFeedClosed,
    /// SIGINT (Ctrl+C).
    Interrupt,
    /// SIGTERM (`kill`, `docker stop`).
    Terminate,
    /// The `--test` duration has elapsed.
    TestDurationReached,
}

/// Whether `signal` ends the run: everything but the external feeds closing
/// does; without them the run goes on on the exchange feed alone.
pub fn stops_run(signal: LoopSignal) -> (stop: bool)
    ensures
        stop == (signal != LoopSignal::ExternalFeedClosed),
{
    match signal {
        LoopSignal::ExternalFeedClosed => false,
        _ => true,
    }
}

/// One step of shutting a grid run down.
#[derive(Clone, Copy, Debug, PartialEq, Eq)]
pub enum ShutdownStep {
    /// Save every slot's state and flush its trade log.
    FlushAll,
    /// Write the final results file.
    WriteFinalResults,
    /// Log a last grid summary.
    LogSummary,
}

/// The shutdown steps, in order: save and flush every slot, then write the
/// final results, then, when a mid price is known to value open positions,
/// log a last summary.
pub open spec fn shutdown_steps(mid_known: bool) -> Seq<ShutdownStep> {
    seq![ShutdownStep::FlushAll, ShutdownStep::WriteFinalResults] + if mid_known {
        seq![ShutdownStep::LogSummary]
    } else {
        Seq::<ShutdownStep>::empty()
    }
}

/// The steps to perform, in order, when a grid run stops.
pub fn on_shutdown(mid_known: bool) -> (steps: Vec<ShutdownStep>)
    ensures
        steps@ == shutdown_steps(mid_known),
{
    let mut steps: Vec<ShutdownStep> = Vec::new();
    steps.push(ShutdownStep::FlushAll);
    steps.push(ShutdownStep::WriteFinalResults);
    if mid_known {
        steps.push(ShutdownStep::LogSummary);
    }
    assert(steps@ =~= shutdown_steps(mid_known));
    steps
}

} // verus!
