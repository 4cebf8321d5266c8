use mudssky_utils::function::DebouncePhase;
use mudssky_utils::function::DebounceOptions;
use mudssky_utils::function::Debouncer;
use mudssky_utils::function::FunctionError;
use mudssky_utils::function::PollOutcome;
use mudssky_utils::function::PollTick;
use mudssky_utils::function::Poller;
use mudssky_utils::function::PollingOptions;
use mudssky_utils::function::RetryOptions;
use mudssky_utils::function::RetryRun;
use mudssky_utils::function::RetryStep;
use mudssky_utils::function::ThrottleOptions;
use mudssky_utils::function::Throttler;
use mudssky_utils::function::polling_stopped_error;

#[test]
fn test_function_error_display() {
    let error = FunctionError::Timeout("Test timeout".to_string());
    assert_eq!(error.to_string(), "Timeout error: Test timeout");

    let error = FunctionError::RetryExhausted("Test retry".to_string());
    assert_eq!(error.to_string(), "Retry exhausted: Test retry");

    let error = FunctionError::PollingError("Test polling".to_string());
    assert_eq!(error.to_string(), "Polling error: Test polling");

    let error = FunctionError::General("Test general".to_string());
    assert_eq!(error.to_string(), "Function error: Test general");
}

#[test]
fn test_debounce_options_default() {
    let options = DebounceOptions::default();
    assert!(!options.leading);
    assert!(options.trailing);
}

#[test]
fn test_throttle_options_default() {
    let options = ThrottleOptions::default();
    assert!(!options.leading);
    assert!(options.trailing);
}

#[test]
fn test_polling_options_default() {
    let options = PollingOptions::default();
    assert_eq!(options.interval_millis, 5000);
    assert_eq!(options.max_retries, 3);
    assert!(options.quit_on_error);
    assert!(!options.immediate);
    assert_eq!(options.max_executions, usize::MAX);
}

#[test]
fn test_retry_options_default() {
    let options = RetryOptions::default();
    assert_eq!(options.max_retries, 3);
    assert_eq!(options.delay_millis, 0);
}

#[test]
fn test_retry_run_exhaustion_counts_attempts() {
    // A permanently failing operation with two retries is invoked three times.
    let mut run = RetryRun::new(RetryOptions {
        max_retries: 2,
        delay_millis: 0,
    });
    let mut invocations: usize = 1;
    let message = loop {
        match run.record_failure("Always fails") {
            RetryStep::RetryNow => {
                invocations += 1;
            }
            RetryStep::RetryAfter(_) => {
                panic!("a zero delay must not suspend");
            }
            RetryStep::GiveUp(e) => {
                break e.to_string();
            }
        }
    };
    assert_eq!(invocations, 3);
    assert_eq!(run.retry_count, 3);
    assert!(message.contains("failed after 2 retries"));
    assert_eq!(
        message,
        "Retry exhausted: Function failed after 2 retries. Last error: Always fails"
    );
}

#[test]
fn test_retry_run_zero_delay_never_sleeps() {
    let mut run = RetryRun::new(RetryOptions {
        max_retries: 5,
        delay_millis: 0,
    });
    for _ in 0..5 {
        assert!(matches!(
            run.record_failure("nope"),
            RetryStep::RetryNow
        ));
    }
    assert!(matches!(run.record_failure("nope"), RetryStep::GiveUp(_)));
}

#[test]
fn test_retry_run_delay_between_attempts() {
    let mut run = RetryRun::new(RetryOptions {
        max_retries: 1,
        delay_millis: 250,
    });
    match run.record_failure("first") {
        RetryStep::RetryAfter(d) => assert_eq!(d, 250),
        _ => panic!("the first failure must retry after the delay"),
    }
}

#[test]
fn test_debouncer_leading_runs_at_once() {
    let mut debouncer = Debouncer::new(
        50,
        DebounceOptions {
            leading: true,
            trailing: false,
        },
    );
    assert_eq!(debouncer.note_call(1000), DebouncePhase::RunNow);
    assert_eq!(debouncer.note_call(1001), DebouncePhase::RunNow);
}

#[test]
fn test_debouncer_trailing_isolated_call() {
    let mut debouncer = Debouncer::new(
        50,
        DebounceOptions {
            leading: false,
            trailing: true,
        },
    );
    assert_eq!(debouncer.note_call(1000), DebouncePhase::WaitFor(50));
    // No competing call arrived; after the wait the operation runs.
    assert!(debouncer.decide_after_wait(1050).is_ok());
}

#[test]
fn test_debouncer_superseded_call_rejected() {
    let mut debouncer = Debouncer::new(50, DebounceOptions::default());
    debouncer.note_call(1000);
    // A newer call supersedes the first one's wake-up.
    debouncer.note_call(1030);
    let r = debouncer.decide_after_wait(1050);
    assert!(r.is_err());
    match r.unwrap_err() {
        FunctionError::General(m) => {
            assert_eq!(m, "Function execution was debounced")
        }
        _ => panic!("expected a general error"),
    }
}

#[test]
fn test_debouncer_cancel() {
    let mut debouncer = Debouncer::new(100, DebounceOptions::default());
    debouncer.note_call(1000);
    debouncer.cancel();
    let r = debouncer.decide_after_wait(1100);
    assert!(r.is_err());
    match r.unwrap_err() {
        FunctionError::General(m) => assert_eq!(m, "Debouncer was cancelled"),
        _ => panic!("expected a general error"),
    }
}

#[test]
fn test_debouncer_is_pending() {
    let mut debouncer = Debouncer::new(100, DebounceOptions::default());
    assert!(!debouncer.is_pending());
    debouncer.note_call(1000);
    assert!(debouncer.is_pending_at(1050));
    assert!(!debouncer.is_pending_at(1100));
}

#[test]
fn test_throttler_leading() {
    let mut throttler = Throttler::new(
        50,
        ThrottleOptions {
            leading: true,
            trailing: false,
        },
    );
    assert!(throttler.try_acquire(1000).is_ok());
    // A second call before the window has elapsed is throttled.
    let r = throttler.try_acquire(1010);
    assert!(r.is_err());
    match r.unwrap_err() {
        FunctionError::General(m) => {
            assert_eq!(m, "Function execution was throttled")
        }
        _ => panic!("expected a general error"),
    }
    // Once the window has elapsed the next call runs.
    assert!(throttler.try_acquire(1060).is_ok());
}

#[test]
fn test_throttler_trailing_only_first_call_consumes_slot() {
    let mut throttler = Throttler::new(50, ThrottleOptions::default());
    // Without the leading edge the first call only consumes the slot.
    assert!(throttler.try_acquire(1000).is_err());
    assert!(throttler.try_acquire(1050).is_ok());
}

#[test]
fn test_throttler_cancel() {
    let mut throttler = Throttler::new(50, ThrottleOptions::default());
    throttler.cancel();
    for now in [1000u64, 2000, 3000] {
        let r = throttler.try_acquire(now);
        assert!(r.is_err());
        match r.unwrap_err() {
            FunctionError::General(m) => {
                assert_eq!(m, "Throttler was cancelled")
            }
            _ => panic!("expected a general error"),
        }
    }
}

#[test]
fn test_poller_status() {
    let poller = Poller::new(PollingOptions::default());
    let status = poller.status();
    assert!(!status.is_active);
    assert_eq!(status.retry_count, 0);
    assert_eq!(status.execution_count, 0);
}

#[test]
fn test_poller_immediate_success_on_second_invocation() {
    // The task fails its immediate run and succeeds with a stop-satisfying
    // result on its second invocation, one interval later.
    let mut poller = Poller::new(PollingOptions {
        interval_millis: 10,
        max_executions: 3,
        immediate: true,
        ..Default::default()
    });
    poller.begin();
    let mut invocations = 0;

    // Immediate run: the task fails.
    invocations += 1;
    assert!(!poller.on_immediate_result(false, false));
    assert_eq!(poller.status().retry_count, 1);

    // First loop iteration: sleep, then the task succeeds and stops.
    match poller.tick() {
        PollTick::Sleep(interval) => assert_eq!(interval, 10),
        PollTick::Stop => panic!("an active poller with budget must sleep"),
    }
    assert!(poller.still_active());
    invocations += 1;
    match poller.on_task_result(true, true) {
        PollOutcome::Finish => {}
        _ => panic!("a stop-satisfying success must finish the run"),
    }
    assert!(invocations >= 2);
    assert!(!poller.status().is_active);
}

#[test]
fn test_poller_stop_halts_loop() {
    let mut poller = Poller::new(PollingOptions {
        interval_millis: 10,
        ..Default::default()
    });
    poller.begin();
    assert!(matches!(poller.tick(), PollTick::Sleep(_)));
    assert!(matches!(poller.on_task_result(true, false), PollOutcome::Continue));
    // Another task stops the poller; the next loop check halts.
    poller.stop();
    assert!(matches!(poller.tick(), PollTick::Stop));
    let e = polling_stopped_error();
    assert_eq!(e.to_string(), "Polling error: Polling stopped");
}

#[test]
fn test_poller_retry_budget() {
    let mut poller = Poller::new(PollingOptions {
        interval_millis: 1,
        max_retries: 2,
        quit_on_error: true,
        immediate: false,
        max_executions: usize::MAX,
    });
    poller.begin();
    assert!(matches!(poller.tick(), PollTick::Sleep(_)));
    assert!(matches!(poller.on_task_result(false, false), PollOutcome::Continue));
    assert!(matches!(poller.tick(), PollTick::Sleep(_)));
    match poller.on_task_result(false, false) {
        PollOutcome::Fail(e) => {
            assert_eq!(e.to_string(), "Polling error: Max retries exceeded")
        }
        _ => panic!("the second failure spends the budget"),
    }
    assert!(!poller.status().is_active);
    assert_eq!(poller.status().retry_count, 2);
    assert_eq!(poller.status().execution_count, 2);
}

#[test]
fn test_poller_execution_budget() {
    let mut poller = Poller::new(PollingOptions {
        interval_millis: 1,
        max_retries: 3,
        quit_on_error: false,
        immediate: false,
        max_executions: 1,
    });
    poller.begin();
    assert!(matches!(poller.tick(), PollTick::Sleep(_)));
    assert!(matches!(poller.on_task_result(true, false), PollOutcome::Continue));
    // The execution budget is spent; the next check halts.
    assert!(matches!(poller.tick(), PollTick::Stop));
}

#[test]
fn test_poller_counters_accumulate_across_runs() {
    let mut poller = Poller::new(PollingOptions {
        interval_millis: 1,
        ..Default::default()
    });
    poller.begin();
    assert!(matches!(poller.tick(), PollTick::Sleep(_)));
    assert!(matches!(poller.on_task_result(true, true), PollOutcome::Finish));
    assert_eq!(poller.status().execution_count, 1);
    // A second run keeps the counters.
    poller.begin();
    assert_eq!(poller.status().execution_count, 1);
    assert!(matches!(poller.tick(), PollTick::Sleep(_)));
    assert_eq!(poller.status().execution_count, 2);
}
