use lighter_mm_dryrun::run_loop::{
    disconnected_feed, on_book_update, on_shutdown, stops_run, use_external_alpha,
    BookUpdateContext, ExternalFeed, LoopSignal, RunPhase, ShutdownStep,
};

fn ctx(has_mid: bool, warm: bool, summary: bool, elapsed: bool, log_due: bool) -> BookUpdateContext {
    BookUpdateContext {
        has_mid,
        any_slot_warmed_up: warm,
        summary_due: summary,
        warmup_elapsed: elapsed,
        warmup_log_due: log_due,
    }
}

#[test]
fn warmup_ends_once_and_quoting_follows() {
    let mut phase = RunPhase { warmup_complete: false };
    let a = on_book_update(&mut phase, ctx(true, true, true, false, true));
    assert!(a.set_mid && a.feed_slots && a.log_warmup_progress);
    assert!(!a.tick_slots && !a.log_summary_and_flush && !a.finish_warmup);
    assert!(!phase.warmup_complete);

    let a = on_book_update(&mut phase, ctx(true, true, true, true, true));
    assert!(a.finish_warmup && !a.tick_slots && !a.log_warmup_progress);
    assert!(phase.warmup_complete);

    let a = on_book_update(&mut phase, ctx(true, true, true, false, true));
    assert!(a.tick_slots && a.log_summary_and_flush && !a.finish_warmup && !a.log_warmup_progress);
    assert!(phase.warmup_complete);

    let a = on_book_update(&mut phase, ctx(true, false, false, true, true));
    assert!(a.feed_slots && !a.tick_slots && !a.log_summary_and_flush);
}

#[test]
fn book_without_mid_only_clears_the_mid() {
    let mut phase = RunPhase { warmup_complete: true };
    let a = on_book_update(&mut phase, ctx(false, true, true, true, true));
    assert!(!a.set_mid && !a.feed_slots && !a.tick_slots && !a.log_summary_and_flush);
    let mut cold = RunPhase { warmup_complete: false };
    let a = on_book_update(&mut cold, ctx(false, true, true, true, true));
    assert!(!a.finish_warmup && !cold.warmup_complete);
}

#[test]
fn external_alpha_needs_warm_and_fresh_feed() {
    assert!(use_external_alpha(true, false));
    assert!(!use_external_alpha(true, true));
    assert!(!use_external_alpha(false, false));
}

#[test]
fn disconnect_notice_names_the_feed() {
    assert_eq!(disconnected_feed("bbo"), ExternalFeed::BestBidOffer);
    assert_eq!(disconnected_feed("depth"), ExternalFeed::Depth);
    assert_eq!(disconnected_feed("bb"), ExternalFeed::Depth);
    assert_eq!(disconnected_feed("bbx"), ExternalFeed::Depth);
    assert_eq!(disconnected_feed(""), ExternalFeed::Depth);
}

#[test]
fn only_the_external_feed_closing_keeps_the_run_going() {
    assert!(stops_run(LoopSignal::ExchangeFeedClosed));
    assert!(!stops_run(LoopSignal::ExternalFeedClosed));
    assert!(stops_run(LoopSignal::Interrupt));
    assert!(stops_run(LoopSignal::Terminate));
    assert!(stops_run(LoopSignal::TestDurationReached));
}

#[test]
fn shutdown_saves_always_and_summarises_with_a_mid() {
    assert_eq!(
        on_shutdown(true),
        vec![ShutdownStep::FlushAll, ShutdownStep::WriteFinalResults, ShutdownStep::LogSummary]
    );
    assert_eq!(
        on_shutdown(false),
        vec![ShutdownStep::FlushAll, ShutdownStep::WriteFinalResults]
    );
}
