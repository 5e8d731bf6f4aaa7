use game_master::clock::LamportClock;
use game_master::message::{handle_client_a, handle_client_b, Outcome};
use game_master::round::{evaluate_results, round_report, Lobby, RoundCoordinator};
use game_master::table::ResultTable;
use game_master::types::{RoundWindow, ThrowResult, Timestamp, Variant};

fn zero() -> Timestamp {
    Timestamp { hours: 0, minutes: 0, seconds: 0, microseconds: 0 }
}

fn plain(value: u32) -> ThrowResult {
    ThrowResult::Plain { value, start: zero(), end: zero() }
}

fn causal(value: u32, lc: u32) -> ThrowResult {
    ThrowResult::Causal { value, start: zero(), end: zero(), lc }
}

fn names(table: &ResultTable) -> Vec<String> {
    table.entries().into_iter().map(|e| e.name).collect()
}

#[test]
fn tie_goes_to_the_earlier_row() {
    let mut table = ResultTable::new();
    table.insert("p1".to_string(), plain(4));
    table.insert("p2".to_string(), plain(6));
    table.insert("p3".to_string(), plain(6));
    assert_eq!(table.leader(), Some(1));
    for _ in 0..3 {
        let report = round_report(
            &table,
            Variant::Plain,
            RoundWindow { lc_start: 1, lc_stop: 2 },
            1,
            "then".to_string(),
            "now".to_string(),
        );
        let winner = report.winner.unwrap();
        assert_eq!(winner.result.value(), 6);
        assert_eq!(winner.name, "p2");
    }
}

#[test]
fn overwriting_keeps_the_row_in_place() {
    let mut table = ResultTable::new();
    table.insert("p1".to_string(), plain(6));
    table.insert("p2".to_string(), plain(6));
    table.insert("p1".to_string(), plain(5));
    assert_eq!(names(&table), vec!["p1", "p2"]);
    assert_eq!(table.leader(), Some(1));
    table.insert("p1".to_string(), plain(6));
    assert_eq!(table.leader(), Some(0));
}

#[test]
fn two_players_plain_round() {
    let mut coordinator = RoundCoordinator::new(Variant::Plain);
    let mut clock = LamportClock::new();
    let mut table = ResultTable::new();
    let (lc_start, start) = coordinator.start_round(&mut clock).unwrap();
    assert_eq!(start, "START");
    assert_eq!(handle_client_a(&mut table, "WURF A 5 0 0 0 0 0 0 1 0"), Outcome::Recorded);
    assert_eq!(handle_client_a(&mut table, "WURF B 3 0 0 0 0 0 0 1 0"), Outcome::Recorded);
    let (lc_stop, stop) = coordinator.stop_round(&mut clock).unwrap();
    assert_eq!(stop, "STOP");
    let report =
        coordinator.finish_round(&mut table, RoundWindow { lc_start, lc_stop }, "start".to_string());
    assert_eq!(report.round, 1);
    assert_eq!(report.started, "start");
    assert_eq!(report.window, None);
    assert_eq!(report.throws.len(), 2);
    assert_eq!(report.throws[0].name, "A");
    assert_eq!(report.throws[0].result.value(), 5);
    assert_eq!(report.throws[1].name, "B");
    assert_eq!(report.throws[1].result.value(), 3);
    let winner = report.winner.unwrap();
    assert_eq!(winner.name, "A");
    assert_eq!(winner.result.value(), 5);
    assert!(table.is_empty());
    assert_eq!(coordinator.round(), 2);
}

#[test]
fn throw_at_the_window_start_is_left_out() {
    let mut coordinator = RoundCoordinator::new(Variant::Causal);
    let mut clock = LamportClock::new();
    let mut table = ResultTable::new();
    let (lc_start, start) = coordinator.start_round(&mut clock).unwrap();
    assert_eq!(lc_start, 1);
    assert_eq!(start, "START 1");
    assert_eq!(
        handle_client_b(&mut table, &mut clock, "WURF A 6 1 0 0 0 0 0 0 1 0"),
        Outcome::Recorded
    );
    assert_eq!(
        handle_client_b(&mut table, &mut clock, "WURF B 2 2 0 0 0 0 0 0 1 0"),
        Outcome::Recorded
    );
    let (lc_stop, stop) = coordinator.stop_round(&mut clock).unwrap();
    assert_eq!(lc_stop, 4);
    assert_eq!(stop, "STOP 4");
    let window = RoundWindow { lc_start, lc_stop };
    let report = coordinator.finish_round(&mut table, window, "start".to_string());
    assert_eq!(report.window, Some(window));
    assert_eq!(report.throws.len(), 1);
    assert_eq!(report.throws[0].name, "B");
    assert_eq!(report.winner.unwrap().name, "B");
    assert!(table.is_empty());
}

#[test]
fn throw_at_the_window_end_is_left_out() {
    let mut table = ResultTable::new();
    table.insert("early".to_string(), causal(6, 3));
    table.insert("inside".to_string(), causal(1, 4));
    table.insert("late".to_string(), causal(6, 9));
    table.insert("later".to_string(), causal(6, 10));
    table.insert("also".to_string(), causal(2, 8));
    let window = RoundWindow { lc_start: 3, lc_stop: 9 };
    table.retain_window(&window);
    assert_eq!(names(&table), vec!["inside", "also"]);
    assert_eq!(table.leader(), Some(1));
}

#[test]
fn no_throw_no_winner() {
    let mut coordinator = RoundCoordinator::new(Variant::Plain);
    let mut clock = LamportClock::new();
    let mut table = ResultTable::new();
    let (lc_start, _) = coordinator.start_round(&mut clock).unwrap();
    let (lc_stop, _) = coordinator.stop_round(&mut clock).unwrap();
    let report =
        coordinator.finish_round(&mut table, RoundWindow { lc_start, lc_stop }, "s".to_string());
    assert!(report.winner.is_none());
    assert!(report.throws.is_empty());
    assert!(table.is_empty());
    assert_eq!(table.leader(), None);
}

#[test]
fn table_is_empty_after_every_round() {
    let mut coordinator = RoundCoordinator::new(Variant::Causal);
    let mut table = ResultTable::new();
    for n in 0..5u32 {
        for k in 0..n {
            table.insert(format!("p{}", k), causal(k, k));
        }
        assert_eq!(table.len(), n as usize);
        coordinator.finish_round(&mut table, RoundWindow { lc_start: 1, lc_stop: 3 }, "s".to_string());
        assert!(table.is_empty());
        assert_eq!(table.len(), 0);
    }
    assert_eq!(coordinator.round(), 6);
    table.clear();
    assert!(table.is_empty());
}

#[test]
fn evaluation_reports_what_counts_and_empties_the_table() {
    let mut table = ResultTable::new();
    table.insert("a".to_string(), causal(6, 1));
    table.insert("b".to_string(), plain(2));
    table.insert("c".to_string(), causal(3, 2));
    let window = RoundWindow { lc_start: 1, lc_stop: 3 };
    let report = evaluate_results(&mut table, Variant::Causal, window, 7, "began".to_string());
    assert_eq!(report.round, 7);
    assert_eq!(report.started, "began");
    assert!(!report.ended.is_empty());
    assert_eq!(report.window, Some(window));
    assert_eq!(report.throws.len(), 2);
    assert_eq!(report.throws[0].name, "b");
    assert_eq!(report.throws[1].name, "c");
    assert_eq!(report.winner.unwrap().name, "c");
    assert!(table.is_empty());
}

#[test]
fn evaluation_empties_the_table_whatever_it_held() {
    for n in 0..6u32 {
        let mut table = ResultTable::new();
        for k in 0..n {
            table.insert(format!("p{}", k), causal(k, k));
            table.insert(format!("q{}", k), plain(k));
        }
        let window = RoundWindow { lc_start: 1, lc_stop: 4 };
        let report = evaluate_results(&mut table, Variant::Causal, window, 1, "s".to_string());
        assert!(table.is_empty());
        assert_eq!(table.len(), 0);
        let inside = (0..n).filter(|&k| 1 < k && k < 4).count();
        assert_eq!(report.throws.len(), n as usize + inside);
    }
}

#[test]
fn empty_window_admits_no_causal_throw() {
    let window = RoundWindow { lc_start: 4, lc_stop: 5 };
    for lc in 0..10u32 {
        assert!(!window.contains(lc));
        assert!(!causal(1, lc).survives(&window));
        assert!(plain(1).survives(&window));
    }
    let wide = RoundWindow { lc_start: 4, lc_stop: 7 };
    assert!(!wide.contains(4));
    assert!(wide.contains(5));
    assert!(wide.contains(6));
    assert!(!wide.contains(7));
}

#[test]
fn stop_comes_after_start_and_after_every_merge() {
    let coordinator = RoundCoordinator::new(Variant::Causal);
    let mut clock = LamportClock::new();
    let (lc_start, _) = coordinator.start_round(&mut clock).unwrap();
    for remote in [9u32, 2, 40] {
        clock.merge(remote).unwrap();
    }
    let (lc_stop, _) = coordinator.stop_round(&mut clock).unwrap();
    assert_eq!(lc_start, 1);
    assert_eq!(lc_stop, 42);
    assert_eq!(coordinator.variant(), Variant::Causal);
}

#[test]
fn throws_are_told_in_words() {
    let start = Timestamp { hours: 12, minutes: 5, seconds: 0, microseconds: 123456 };
    let end = Timestamp { hours: 12, minutes: 5, seconds: 1, microseconds: 7 };
    assert_eq!(
        ThrowResult::Plain { value: 5, start, end }.to_string(),
        "5 gewürfelt! (START-Nachricht erhalten: 12:5:0.123456, Antwort gesendet: 12:5:1.7)"
    );
    assert_eq!(
        ThrowResult::Causal { value: 3, start, end, lc: 42 }.to_string(),
        "3 gewürfelt! (START-Nachricht erhalten: 12:5:0.123456, Antwort gesendet: 12:5:1.7, Lamport-Zeit: 42)"
    );
}

#[test]
fn report_lines_of_a_causal_round() {
    let mut table = ResultTable::new();
    table.insert("A".to_string(), causal(5, 2));
    table.insert("B".to_string(), causal(6, 9));
    table.insert("C".to_string(), causal(3, 3));
    let window = RoundWindow { lc_start: 1, lc_stop: 4 };
    table.retain_window(&window);
    let report =
        round_report(&table, Variant::Causal, window, 12, "then".to_string(), "now".to_string());
    assert_eq!(
        report.lines(),
        vec![
            "Runde 12 - gestartet um then - beendet um now:",
            "Lamportzeit zu Rundenstart: 1 und zu Rundenende: 4",
            "A hat eine 5 gewürfelt! (START-Nachricht erhalten: 0:0:0.0, Antwort gesendet: 0:0:0.0, Lamport-Zeit: 2)",
            "C hat eine 3 gewürfelt! (START-Nachricht erhalten: 0:0:0.0, Antwort gesendet: 0:0:0.0, Lamport-Zeit: 3)",
            "Runde 12 hat A mit folgendem Wurf gewonnen: 5!",
            "",
        ]
    );
}

#[test]
fn report_lines_of_an_empty_plain_round() {
    let table = ResultTable::new();
    let window = RoundWindow { lc_start: 1, lc_stop: 2 };
    let report = round_report(
        &table,
        Variant::Plain,
        window,
        18446744073709551615,
        "then".to_string(),
        "now".to_string(),
    );
    assert_eq!(
        report.lines(),
        vec![
            "Runde 18446744073709551615 - gestartet um then - beendet um now:",
            "Da waren wohl alle Spieler zu langsam für den Spielleiter :)",
            "",
        ]
    );
}

#[test]
fn lobby_is_complete_with_the_last_player() {
    let mut lobby = Lobby::new(3);
    assert_eq!(lobby.joined(), 0);
    assert!(!lobby.enter());
    assert!(!lobby.enter());
    assert!(lobby.enter());
    assert_eq!(lobby.joined(), 3);
    assert!(lobby.complete());
}

#[test]
fn lobby_for_nobody_is_complete_at_once() {
    let nobody = Lobby::new(0);
    assert!(nobody.complete());
    assert_eq!(nobody.joined(), 0);
    let mut lobby = Lobby::new(2);
    assert!(!lobby.complete());
    assert!(!lobby.enter());
    assert!(!lobby.complete());
    assert!(lobby.enter());
    assert!(lobby.complete());
}
