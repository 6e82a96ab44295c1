use rtic_r52::export::{lock, pend, run, Peripherals, R52Interrupt};
use std::cell::Cell;

#[test]
fn lock_runs_the_body_on_the_resource() {
    let mut shared: u32 = 41;
    let got = lock(&mut shared, 3, |value: &mut u32| {
        *value += 1;
        *value * 2
    });
    assert_eq!(shared, 42);
    assert_eq!(got, 84);
}

#[test]
fn lock_ignores_the_ceiling() {
    for ceiling in [0u8, 1, 7, 255] {
        let mut shared = vec![1u8, 2, 3];
        let len = lock(&mut shared, ceiling, |v: &mut Vec<u8>| {
            v.push(ceiling);
            v.len()
        });
        assert_eq!(len, 4);
        assert_eq!(shared, vec![1, 2, 3, ceiling]);
    }
}

#[test]
fn locks_nest_on_different_resources() {
    let mut outer: u32 = 1;
    let mut inner: u32 = 10;
    let sum = lock(&mut outer, 2, |a: &mut u32| {
        *a += 1;
        let b = lock(&mut inner, 3, |b: &mut u32| {
            *b += 1;
            *b
        });
        *a + b
    });
    assert_eq!(sum, 13);
    assert_eq!(outer, 2);
    assert_eq!(inner, 11);
}

#[test]
fn lock_hands_back_an_early_result() {
    let mut shared: i32 = -5;
    let got = lock(&mut shared, 1, |v: &mut i32| {
        if *v < 0 {
            return Err("negative");
        }
        *v += 1;
        Ok(*v)
    });
    assert_eq!(got, Err("negative"));
    assert_eq!(shared, -5);
}

#[test]
fn run_calls_the_body_once() {
    let mut hits = 0;
    run(2, || hits += 1);
    assert_eq!(hits, 1);
}

struct Line<'a> {
    number: u32,
    pended: &'a Cell<Option<u32>>,
}

impl R52Interrupt for Line<'_> {
    fn pend(self) {
        self.pended.set(Some(self.number));
    }
}

#[test]
fn pend_pends_the_given_interrupt() {
    let pended = Cell::new(None);
    pend(Line { number: 27, pended: &pended });
    assert_eq!(pended.get(), Some(27));
}

#[test]
fn steal_hands_out_the_peripherals() {
    let _first: Peripherals = Peripherals::steal();
    let _second: Peripherals = Peripherals::steal();
}
