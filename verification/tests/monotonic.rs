use rtic_r52::monotonic::{
    ticks_per_tick, timer_frequency, Phase, StartError, VirtualTimerBackend, HALF_PERIOD,
};
use rtic_r52::timer_queue::Entry;

fn started(hardware_clock_hz: u32, logical_tick_hz: u32, raw_now: u64) -> VirtualTimerBackend {
    let mut backend = VirtualTimerBackend::new();
    assert_eq!(backend.start(hardware_clock_hz, logical_tick_hz, raw_now), Ok(()));
    backend
}

fn now(backend: &mut VirtualTimerBackend, raw: u64) -> u64 {
    assert!(backend.is_started());
    assert!(backend.in_range(raw));
    backend.now(raw)
}

fn serve(backend: &mut VirtualTimerBackend, raw: u64) -> Vec<Entry> {
    assert!(backend.is_started());
    assert!(backend.in_range(raw));
    backend.on_interrupt(raw)
}

fn pending(backend: &VirtualTimerBackend) -> (usize, Option<Entry>) {
    (backend.timer_queue().len(), backend.timer_queue().peek())
}

#[test]
fn the_scale_is_the_ratio_of_the_rates() {
    assert_eq!(ticks_per_tick(100_000_000, 1_000_000), Ok(100));
    assert_eq!(ticks_per_tick(1_000_000, 1_000_000), Ok(1));
    assert_eq!(ticks_per_tick(u32::MAX, 1), Ok(u32::MAX as u64));
}

#[test]
fn a_zero_tick_rate_is_refused() {
    assert_eq!(ticks_per_tick(100_000_000, 0), Err(StartError::ZeroTickRate));
    assert_eq!(ticks_per_tick(0, 0), Err(StartError::ZeroTickRate));
}

#[test]
fn a_fractional_scale_is_refused() {
    assert_eq!(ticks_per_tick(100, 3), Err(StartError::NotAMultiple));
    assert_eq!(ticks_per_tick(1, 2), Err(StartError::NotAMultiple));
}

#[test]
fn a_zero_frequency_is_refused() {
    assert_eq!(ticks_per_tick(0, 1_000), Err(StartError::ZeroScale));
}

#[test]
fn the_reported_frequency_stands_in_for_none() {
    assert_eq!(timer_frequency(0, 24_000_000), 24_000_000);
    assert_eq!(timer_frequency(100_000_000, 24_000_000), 100_000_000);
}

#[test]
fn a_new_backend_is_not_started() {
    let backend = VirtualTimerBackend::new();
    assert_eq!(backend.phase(), Phase::Uninitialized);
    assert!(!backend.is_started());
    assert_eq!(backend.ticks_per_tick(), 0);
    assert!(!backend.is_timer_enabled());
    assert_eq!(pending(&backend), (0, None));
}

#[test]
fn start_fixes_the_scale_and_arms_one_tick_ahead() {
    let mut backend = VirtualTimerBackend::new();
    assert_eq!(backend.start(100_000_000, 1_000_000, 12_345), Ok(()));
    assert_eq!(backend.phase(), Phase::Started);
    assert!(backend.is_started());
    assert_eq!(backend.ticks_per_tick(), 100);
    assert_eq!(backend.overflows(), 0);
    assert_eq!(backend.compare(), 12_445);
    assert!(backend.is_timer_enabled());
}

#[test]
fn a_failed_start_changes_nothing() {
    let mut backend = VirtualTimerBackend::new();
    assert_eq!(backend.start(100_000_000, 0, 5), Err(StartError::ZeroTickRate));
    assert_eq!(backend.start(100, 3, 5), Err(StartError::NotAMultiple));
    assert_eq!(backend.start(0, 3, 5), Err(StartError::ZeroScale));
    assert_eq!(backend.phase(), Phase::Uninitialized);
    assert_eq!(backend.ticks_per_tick(), 0);
    assert_eq!(backend.compare(), 0);
    assert!(!backend.is_timer_enabled());

    let mut backend = started(1_000, 10, 0);
    assert_eq!(backend.start(100, 3, 777), Err(StartError::NotAMultiple));
    assert_eq!(backend.phase(), Phase::Started);
    assert_eq!(backend.ticks_per_tick(), 100);
    assert_eq!(backend.compare(), 100);
}

#[test]
fn start_arms_across_the_wrap() {
    let backend = started(1_000, 10, u64::MAX - 9);
    assert_eq!(backend.compare(), 90);
}

#[test]
fn now_divides_the_raw_count_by_the_scale() {
    let mut backend = started(1_000, 10, 0);
    assert_eq!(now(&mut backend, 0), 0);
    assert_eq!(now(&mut backend, 99), 0);
    assert_eq!(now(&mut backend, 100), 1);
    assert_eq!(now(&mut backend, 6_050), 60);
    assert_eq!(backend.overflows(), 0);
}

#[test]
fn now_counts_a_wrap_when_the_sample_falls_by_more_than_half_a_period() {
    let mut backend = started(1_000, 10, u64::MAX - 3);
    assert_eq!(now(&mut backend, u64::MAX - 3), 184_467_440_737_095_516);
    assert_eq!(now(&mut backend, 7), 184_467_440_737_095_516);
    assert_eq!(backend.overflows(), 1);
    assert_eq!(now(&mut backend, 93), 184_467_440_737_095_517);
    assert_eq!(backend.overflows(), 1);
}

#[test]
fn now_counts_no_wrap_when_the_sample_falls_by_half_a_period() {
    let mut backend = started(1_000, 10, HALF_PERIOD + 10);
    assert_eq!(now(&mut backend, 10), 0);
    assert_eq!(backend.overflows(), 0);
    let mut backend = started(1_000, 10, HALF_PERIOD + 11);
    assert_eq!(now(&mut backend, 10), 184_467_440_737_095_516);
    assert_eq!(backend.overflows(), 1);
}

#[test]
fn now_never_decreases_across_wraps() {
    let mut backend = started(1_000, 10, 0);
    let quarter = HALF_PERIOD / 2;
    let mut raw: u64 = 0;
    let mut last = 0;
    let mut wraps = 0;
    for step in 0..40u64 {
        let next = raw.wrapping_add(quarter + step * 1_000_003);
        if next < raw {
            wraps += 1;
        }
        raw = next;
        let ticks = now(&mut backend, raw);
        assert!(ticks >= last);
        let wide = ((wraps as u128) << 64) + raw as u128;
        assert_eq!(ticks as u128, wide / 100);
        last = ticks;
    }
    assert!(wraps >= 9);
    assert_eq!(backend.overflows(), wraps);
}

#[test]
fn now_is_out_of_range_once_the_time_needs_more_than_64_bits() {
    let mut backend = started(2, 1, u64::MAX);
    assert_eq!(backend.ticks_per_tick(), 2);
    assert!(backend.in_range(u64::MAX));
    assert_eq!(now(&mut backend, 0), 1 << 63);
    assert_eq!(now(&mut backend, u64::MAX), u64::MAX);
    assert!(!backend.in_range(0));
    assert!(backend.in_range(u64::MAX));
}

#[test]
fn set_compare_arms_a_deadline_that_is_ahead_at_its_own_tick() {
    let mut backend = started(1_000, 10, 0);
    backend.set_compare(20, 1_000);
    assert_eq!(backend.compare(), 2_000);
    backend.set_compare(11, 1_099);
    assert_eq!(backend.compare(), 1_100);
}

#[test]
fn set_compare_arms_a_late_deadline_one_tick_ahead() {
    let mut backend = started(1_000, 10, 0);
    backend.set_compare(5, 1_000);
    assert_eq!(backend.compare(), 1_100);
    backend.set_compare(10, 1_000);
    assert_eq!(backend.compare(), 1_100);
    backend.set_compare(0, 0);
    assert_eq!(backend.compare(), 100);
}

#[test]
fn set_compare_wraps_as_the_register_does() {
    let mut backend = started(1_000, 10, 0);
    backend.set_compare(u64::MAX, 50);
    assert_eq!(backend.compare(), u64::MAX.wrapping_mul(100));
    backend.set_compare(1, u64::MAX - 9);
    assert_eq!(backend.compare(), 90);
}

#[test]
fn set_compare_leaves_the_gate_alone() {
    let mut backend = started(1_000, 10, 0);
    backend.disable_timer();
    backend.set_compare(20, 1_000);
    assert!(!backend.is_timer_enabled());
}

#[test]
fn clear_compare_flag_does_nothing_before_the_start() {
    let mut backend = VirtualTimerBackend::new();
    backend.clear_compare_flag(500);
    assert_eq!(backend.compare(), 0);
    assert!(!backend.is_timer_enabled());
}

#[test]
fn clear_compare_flag_rearms_when_nothing_is_queued() {
    let mut backend = started(1_000, 10, 0);
    backend.clear_compare_flag(500);
    assert_eq!(backend.compare(), 600);
}

#[test]
fn clear_compare_flag_keeps_the_compare_of_a_queued_deadline() {
    let mut backend = started(1_000, 10, 0);
    backend.schedule(30, 1, 0);
    backend.set_compare(30, 0);
    backend.clear_compare_flag(500);
    assert_eq!(backend.compare(), 3_000);
}

#[test]
fn the_timer_gate_opens_and_closes() {
    let mut backend = started(1_000, 10, 0);
    let compare = backend.compare();
    backend.disable_timer();
    assert!(!backend.is_timer_enabled());
    assert_eq!(backend.compare(), compare);
    backend.enable_timer();
    assert!(backend.is_timer_enabled());
    assert_eq!(backend.compare(), compare);
    assert_eq!(backend.overflows(), 0);
}

#[test]
fn pend_interrupt_arms_the_next_raw_tick() {
    let mut backend = started(1_000, 10, 0);
    backend.disable_timer();
    backend.pend_interrupt(4_321);
    assert_eq!(backend.compare(), 4_322);
    assert!(backend.is_timer_enabled());
    backend.pend_interrupt(u64::MAX);
    assert_eq!(backend.compare(), 0);
}

#[test]
fn schedule_pends_the_interrupt_for_a_new_head() {
    let mut backend = started(1_000, 10, 0);
    backend.disable_timer();
    assert!(backend.schedule(50, 1, 700));
    assert_eq!(backend.compare(), 701);
    assert!(backend.is_timer_enabled());
    backend.set_compare(50, 700);
    assert!(!backend.schedule(80, 2, 900));
    assert_eq!(backend.compare(), 5_000);
    assert!(backend.schedule(20, 3, 900));
    assert_eq!(backend.compare(), 901);
    assert_eq!(pending(&backend), (3, Some(Entry { deadline: 20, waiter: 3 })));
}

#[test]
fn the_interrupt_delivers_what_is_due_and_rearms_for_the_rest() {
    let mut backend = started(1_000_000, 1_000_000, 0);
    backend.schedule(50, 1, 0);
    backend.schedule(20, 2, 0);
    backend.schedule(80, 3, 0);
    let delivered = serve(&mut backend, 60);
    assert_eq!(
        delivered,
        vec![Entry { deadline: 20, waiter: 2 }, Entry { deadline: 50, waiter: 1 }]
    );
    assert_eq!(pending(&backend), (1, Some(Entry { deadline: 80, waiter: 3 })));
    assert_eq!(backend.compare(), 80);
    assert!(backend.is_timer_enabled());
    assert_eq!(backend.phase(), Phase::Running);
}

#[test]
fn the_interrupt_rearms_in_raw_ticks() {
    let mut backend = started(1_000, 10, 0);
    backend.schedule(50, 1, 0);
    backend.schedule(20, 2, 0);
    backend.schedule(80, 3, 0);
    let delivered = serve(&mut backend, 6_099);
    assert_eq!(
        delivered,
        vec![Entry { deadline: 20, waiter: 2 }, Entry { deadline: 50, waiter: 1 }]
    );
    assert_eq!(backend.compare(), 8_000);
}

#[test]
fn the_interrupt_disarms_when_nothing_is_left() {
    let mut backend = started(1_000, 10, 0);
    backend.schedule(50, 1, 0);
    let delivered = serve(&mut backend, 5_000);
    assert_eq!(delivered, vec![Entry { deadline: 50, waiter: 1 }]);
    assert_eq!(pending(&backend), (0, None));
    assert!(!backend.is_timer_enabled());
    assert_eq!(backend.compare(), 5_100);
    assert_eq!(backend.phase(), Phase::Running);
}

#[test]
fn the_interrupt_delivers_nothing_before_the_first_deadline() {
    let mut backend = started(1_000, 10, 0);
    backend.schedule(50, 1, 0);
    let delivered = serve(&mut backend, 4_999);
    assert_eq!(delivered, vec![]);
    assert_eq!(pending(&backend), (1, Some(Entry { deadline: 50, waiter: 1 })));
    assert_eq!(backend.compare(), 5_000);
    assert!(backend.is_timer_enabled());
}

#[test]
fn the_interrupt_counts_wraps_like_now() {
    let mut backend = started(1_000, 10, u64::MAX - 3);
    backend.schedule(184_467_440_737_095_517, 1, u64::MAX - 3);
    assert_eq!(serve(&mut backend, 7), vec![]);
    assert_eq!(backend.overflows(), 1);
    assert_eq!(
        serve(&mut backend, 93),
        vec![Entry { deadline: 184_467_440_737_095_517, waiter: 1 }]
    );
}

#[test]
fn a_cancelled_deadline_is_not_delivered() {
    let mut backend = started(1_000, 10, 0);
    backend.schedule(50, 1, 0);
    backend.schedule(20, 2, 0);
    backend.schedule(80, 3, 0);
    let compare = backend.compare();
    assert!(backend.cancel(1));
    assert_eq!(backend.compare(), compare);
    assert_eq!(serve(&mut backend, 6_000), vec![Entry { deadline: 20, waiter: 2 }]);
    assert_eq!(pending(&backend), (1, Some(Entry { deadline: 80, waiter: 3 })));
}

#[test]
fn cancelling_a_delivered_deadline_has_no_effect() {
    let mut backend = started(1_000, 10, 0);
    backend.schedule(50, 1, 0);
    backend.schedule(80, 3, 0);
    assert_eq!(serve(&mut backend, 6_000), vec![Entry { deadline: 50, waiter: 1 }]);
    let compare = backend.compare();
    assert!(!backend.cancel(1));
    assert_eq!(pending(&backend), (1, Some(Entry { deadline: 80, waiter: 3 })));
    assert_eq!(backend.compare(), compare);
    assert!(backend.is_timer_enabled());
}

#[test]
fn a_restart_resets_the_clock_and_keeps_the_queue() {
    let mut backend = started(1_000, 10, u64::MAX - 3);
    backend.schedule(50, 1, u64::MAX - 3);
    assert_eq!(now(&mut backend, 7), 184_467_440_737_095_516);
    assert_eq!(backend.start(1_000, 100, 40), Ok(()));
    assert_eq!(backend.phase(), Phase::Started);
    assert_eq!(backend.ticks_per_tick(), 10);
    assert_eq!(backend.overflows(), 0);
    assert_eq!(backend.compare(), 50);
    assert_eq!(pending(&backend), (1, Some(Entry { deadline: 50, waiter: 1 })));
}

#[test]
fn a_restart_does_not_take_the_phase_back() {
    let mut backend = started(1_000, 10, 0);
    assert_eq!(serve(&mut backend, 50), vec![]);
    assert_eq!(backend.phase(), Phase::Running);
    assert_eq!(backend.start(1_000, 100, 40), Ok(()));
    assert_eq!(backend.phase(), Phase::Running);
    assert_eq!(backend.ticks_per_tick(), 10);
}
