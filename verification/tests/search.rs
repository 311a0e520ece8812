use zero_tail::digest::digest_of;
use zero_tail::find_hash_with_n_zeroes;
use zero_tail::search::{scan_window, SearchCoordinator, SearchState};
use zero_tail::window::{ScanWindow, STRIDE};
use zero_tail::zeros::ends_with_zeroes;

fn candidates(found: &[(u32, String)]) -> Vec<u32> {
    found.iter().map(|m| m.0).collect()
}

#[test]
fn search_for_no_zeros_and_one_match() {
    assert_eq!(
        find_hash_with_n_zeroes(0, 1),
        vec![(
            1u32,
            String::from("6b86b273ff34fce19d6b804eff5a3f5747ada4eaa22f1d49c01e52ddb7875b4b")
        )]
    );
}

#[test]
fn search_for_no_zeros_yields_window_starts() {
    assert_eq!(
        find_hash_with_n_zeroes(0, 3),
        vec![
            (
                1u32,
                String::from("6b86b273ff34fce19d6b804eff5a3f5747ada4eaa22f1d49c01e52ddb7875b4b")
            ),
            (
                1002,
                String::from("b281bc2c616cb3c3a097215fdc9397ae87e6e06b156cc34e656be7a1a9ce8839")
            ),
            (
                2003,
                String::from("77459b9b941bcb4714d0c121313c900ecf30541d158eb2b9b178cdb8eca6457e")
            ),
        ]
    );
}

#[test]
fn search_with_zero_quota_returns_nothing() {
    assert_eq!(find_hash_with_n_zeroes(0, 0), vec![]);
    assert_eq!(find_hash_with_n_zeroes(2, 0), vec![]);
    assert_eq!(find_hash_with_n_zeroes(64, 0), vec![]);
}

#[test]
fn search_for_one_zero() {
    assert_eq!(
        find_hash_with_n_zeroes(1, 3),
        vec![
            (
                23u32,
                String::from("535fa30d7e25dd8a49f1536779734ec8286108d115da5045d77f3b4185d8f790")
            ),
            (
                1022,
                String::from("f00f2e7bca65e9f8409fdb3bcddfa031664224255d7bd2f6b3de8ff11ababe20")
            ),
            (
                2005,
                String::from("a20a2b7bb0842d5cf8a0c06c626421fd51ec103925c1819a51271f2779afa730")
            ),
        ]
    );
}

#[test]
fn search_for_two_zeros() {
    assert_eq!(
        find_hash_with_n_zeroes(2, 4),
        vec![
            (
                403u32,
                String::from("d26eae87829adde551bf4b852f9da6b8c3c2db9b65b8b68870632a2db5f53e00")
            ),
            (
                1270,
                String::from("93654b454b7bc1eea6739e8ca279d028a9f2650c4f3e8843abc47fc5a8893300")
            ),
            (
                2012,
                String::from("4b9a7f50c0bb198c6f5414c5a8459f5d216d34ab521ea94c060ea35cac66f900")
            ),
            (
                3519,
                String::from("ab04a0144aaf727c42a6d5e058cb1e8cfa71b96dc1b057dc371ccc76dac00500")
            ),
        ]
    );
}

#[test]
fn search_passes_over_windows_without_a_match() {
    assert_eq!(
        find_hash_with_n_zeroes(3, 3),
        vec![
            (
                4163u32,
                String::from("95d4362bd3cd4315d0bbe38dfa5d7fb8f0aed5f1a31d98d510907279194e3000")
            ),
            (
                11848,
                String::from("cb58074fd7620cd0ff471922fd9df8812f29f302904b15e389fc14570a66f000")
            ),
            (
                12843,
                String::from("bb90ff93a3ee9e93c123ebfcd2ca1894e8994fef147ad81f7989eccf83f64000")
            ),
        ]
    );
}

#[test]
fn search_for_four_zeros() {
    assert_eq!(
        find_hash_with_n_zeroes(4, 2),
        vec![
            (
                31214u32,
                String::from("16b024b09ebcb9d66f6a9968858d7e01081e51a14a4922edf3c8e3c2009c0000")
            ),
            (
                88183,
                String::from("1b8af662814e2b7c794ae26d5624f23886b6915fb3e9e2c0d4d62099731e0000")
            ),
        ]
    );
}

#[test]
fn search_for_run_longer_than_a_digest_ends_empty() {
    assert_eq!(find_hash_with_n_zeroes(65, 1), vec![]);
    assert_eq!(find_hash_with_n_zeroes(1000, 5), vec![]);
    assert_eq!(find_hash_with_n_zeroes(usize::MAX, usize::MAX), vec![]);
}

#[test]
fn search_takes_one_match_per_window() {
    let found = find_hash_with_n_zeroes(1, 8);
    assert_eq!(
        candidates(&found),
        vec![23, 1022, 2005, 3034, 4051, 5030, 6009, 7026]
    );
}

#[test]
fn search_skips_the_candidate_between_two_windows() {
    // 7007 lies between the windows [6007, 7007) and [7008, 8008); its digest
    // ends with a zero, and still it is not among the results.
    assert!(ends_with_zeroes(&digest_of(7007), 1));
    assert_eq!(7007 % STRIDE, 0);
    let found = find_hash_with_n_zeroes(1, 40);
    assert_eq!(found.len(), 40);
    for (candidate, _) in &found {
        assert_ne!(candidate % STRIDE, 0);
        assert_ne!(*candidate, 7007);
    }
}

#[test]
fn search_results_are_genuine_and_increasing() {
    for n in 0..3usize {
        let found = find_hash_with_n_zeroes(n, 6);
        assert_eq!(found.len(), 6);
        for (candidate, hash) in &found {
            assert_eq!(*hash, digest_of(*candidate));
            assert!(ends_with_zeroes(hash, n));
        }
        for pair in found.windows(2) {
            assert!(pair[0].0 < pair[1].0);
        }
    }
}

#[test]
fn search_with_smaller_quota_returns_a_prefix() {
    let all = find_hash_with_n_zeroes(2, 5);
    for q in 0..5usize {
        assert_eq!(find_hash_with_n_zeroes(2, q), all[..q].to_vec());
    }
}

#[test]
fn search_is_repeatable() {
    assert_eq!(find_hash_with_n_zeroes(2, 3), find_hash_with_n_zeroes(2, 3));
}

#[test]
fn coordinator_starts_dispatching_the_first_window() {
    let coordinator = SearchCoordinator::new(2, 3);
    assert_eq!(coordinator.zero_count(), 2);
    assert_eq!(coordinator.quota(), 3);
    assert_eq!(coordinator.dispatched(), 0);
    assert_eq!(coordinator.len(), 0);
    assert_eq!(coordinator.state(), SearchState::Dispatch);
    assert_eq!(
        coordinator.next_window(),
        Some(ScanWindow { start: 1, end: 1001 })
    );
    assert_eq!(coordinator.results(), &vec![]);
}

#[test]
fn coordinator_with_zero_quota_dispatches_nothing() {
    let coordinator = SearchCoordinator::new(0, 0);
    assert_eq!(coordinator.state(), SearchState::Satisfied);
    assert_eq!(coordinator.next_window(), None);
    assert_eq!(coordinator.dispatched(), 0);
    assert_eq!(coordinator.into_results(), vec![]);
}

#[test]
fn coordinator_with_oversized_run_is_exhausted_at_once() {
    let coordinator = SearchCoordinator::new(65, 1);
    assert_eq!(coordinator.state(), SearchState::Exhausted);
    assert_eq!(coordinator.next_window(), None);
    assert_eq!(coordinator.into_results(), vec![]);
    assert_eq!(SearchCoordinator::new(64, 1).state(), SearchState::Dispatch);
    assert_eq!(SearchCoordinator::new(65, 0).state(), SearchState::Satisfied);
}

#[test]
fn coordinator_records_outcomes_window_by_window() {
    let mut coordinator = SearchCoordinator::new(1, 2);
    let window = coordinator.next_window().unwrap();
    let outcome = scan_window(1, window);
    assert_eq!(outcome.zero_count(), 1);
    assert_eq!(outcome.window(), window);
    assert_eq!(outcome.found(), &Some((23u32, digest_of(23))));
    coordinator = coordinator.record(outcome);
    assert_eq!(coordinator.dispatched(), 1);
    assert_eq!(coordinator.len(), 1);
    assert_eq!(coordinator.state(), SearchState::Dispatch);

    let window = coordinator.next_window().unwrap();
    assert_eq!(window, ScanWindow { start: 1002, end: 2002 });
    coordinator = coordinator.record(scan_window(1, window));
    assert_eq!(coordinator.dispatched(), 2);
    assert_eq!(coordinator.len(), 2);
    assert_eq!(coordinator.state(), SearchState::Satisfied);
    assert_eq!(coordinator.next_window(), None);
    assert_eq!(coordinator.into_results(), find_hash_with_n_zeroes(1, 2));
}

#[test]
fn coordinator_moves_on_when_a_window_has_no_match() {
    let mut coordinator = SearchCoordinator::new(3, 1);
    let window = coordinator.next_window().unwrap();
    let outcome = scan_window(3, window);
    assert_eq!(outcome.found(), &None);
    coordinator = coordinator.record(outcome);
    assert_eq!(coordinator.dispatched(), 1);
    assert_eq!(coordinator.len(), 0);
    assert_eq!(coordinator.state(), SearchState::Dispatch);
    assert_eq!(
        coordinator.next_window(),
        Some(ScanWindow { start: 1002, end: 2002 })
    );
}

#[test]
fn coordinator_drops_an_outcome_of_another_window() {
    let coordinator = SearchCoordinator::new(1, 2);
    let other = scan_window(1, ScanWindow { start: 1002, end: 2002 });
    let coordinator = coordinator.record(other);
    assert_eq!(coordinator.dispatched(), 0);
    assert_eq!(coordinator.len(), 0);
    let shorter = scan_window(1, ScanWindow { start: 1, end: 1000 });
    let coordinator = coordinator.record(shorter);
    assert_eq!(coordinator.dispatched(), 0);
    assert_eq!(coordinator.len(), 0);
    assert_eq!(
        coordinator.next_window(),
        Some(ScanWindow { start: 1, end: 1001 })
    );
}

#[test]
fn coordinator_drops_an_outcome_for_another_run_of_zeros() {
    let coordinator = SearchCoordinator::new(1, 2);
    let window = coordinator.next_window().unwrap();
    let coordinator = coordinator.record(scan_window(0, window));
    assert_eq!(coordinator.dispatched(), 0);
    assert_eq!(coordinator.into_results(), vec![]);
}

#[test]
fn coordinator_drops_outcomes_once_it_has_stopped() {
    let mut coordinator = SearchCoordinator::new(0, 1);
    let window = coordinator.next_window().unwrap();
    coordinator = coordinator.record(scan_window(0, window));
    assert_eq!(coordinator.state(), SearchState::Satisfied);
    let late = scan_window(0, ScanWindow { start: 1002, end: 2002 });
    coordinator = coordinator.record(late);
    assert_eq!(coordinator.dispatched(), 1);
    assert_eq!(coordinator.into_results(), vec![(1u32, digest_of(1))]);
}

#[test]
fn coordinator_never_holds_more_than_the_quota() {
    let mut coordinator = SearchCoordinator::new(0, 4);
    let mut rounds = 0;
    while let Some(window) = coordinator.next_window() {
        coordinator = coordinator.record(scan_window(0, window));
        assert!(coordinator.len() <= coordinator.quota());
        rounds += 1;
    }
    assert_eq!(rounds, 4);
    assert_eq!(coordinator.dispatched(), 4);
    assert_eq!(coordinator.into_results(), find_hash_with_n_zeroes(0, 4));
}

#[test]
fn scan_window_keeps_request_and_result_together() {
    let window = ScanWindow { start: 400, end: 410 };
    let outcome = scan_window(2, window);
    assert_eq!(outcome.zero_count(), 2);
    assert_eq!(outcome.window(), window);
    assert_eq!(outcome.into_found(), Some((403u32, digest_of(403))));
    let empty = scan_window(2, ScanWindow { start: 410, end: 400 });
    assert_eq!(empty.into_found(), None);
}
