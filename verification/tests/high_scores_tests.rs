use lonely_tribes::high_scores::HighScores;

#[test]
fn starts_empty() {
    let hs = HighScores::default();
    assert!(hs.scores.is_empty());
    assert_eq!(hs.get_high_score(0), None);
}

#[test]
fn first_score_is_a_new_high_score() {
    let mut hs = HighScores::default();
    let r = hs.add_score_and_write(0, 5);
    assert_eq!(r, None);
    assert_eq!(hs.scores, vec![5]);
}

#[test]
fn worse_score_keeps_the_old_one() {
    let mut hs = HighScores { scores: vec![5] };
    let r = hs.add_score_and_write(0, 7);
    assert_eq!(r, Some(5));
    assert_eq!(hs.scores, vec![5]);
}

#[test]
fn equal_score_is_not_an_improvement() {
    let mut hs = HighScores { scores: vec![5] };
    let r = hs.add_score_and_write(0, 5);
    assert_eq!(r, Some(5));
    assert_eq!(hs.scores, vec![5]);
}

#[test]
fn better_score_replaces_the_old_one() {
    let mut hs = HighScores { scores: vec![5, 9] };
    let r = hs.add_score_and_write(1, 3);
    assert_eq!(r, None);
    assert_eq!(hs.scores, vec![5, 3]);
}

#[test]
fn get_high_score_reads_recorded_levels_only() {
    let hs = HighScores { scores: vec![4, 8] };
    assert_eq!(hs.get_high_score(0), Some(4));
    assert_eq!(hs.get_high_score(1), Some(8));
    assert_eq!(hs.get_high_score(2), None);
}

#[test]
fn find_next_level_picks_first_unfinished() {
    let hs = HighScores { scores: vec![10, 12] };
    assert_eq!(hs.find_next_level(5), 2);
    let empty = HighScores::default();
    assert_eq!(empty.find_next_level(3), 0);
}

#[test]
fn find_next_level_stays_on_last_when_all_finished() {
    let hs = HighScores { scores: vec![10, 12, 9] };
    assert_eq!(hs.find_next_level(3), 2);
    assert_eq!(hs.find_next_level(2), 1);
}

#[test]
fn scores_survive_a_text_round_trip() {
    let hs = HighScores { scores: vec![3, 5, 8] };
    let text = hs.to_file_text().expect("serialising a score list succeeds");
    let back = HighScores::from_text(&text);
    assert_eq!(back.scores, vec![3, 5, 8]);
}

#[test]
fn stored_text_parses_to_its_scores() {
    let hs = HighScores::from_text("[1,2,3]");
    assert_eq!(hs.scores, vec![1, 2, 3]);
}

#[test]
fn unusable_text_yields_no_scores() {
    assert!(HighScores::from_text("").scores.is_empty());
    assert!(HighScores::from_text("not a score list").scores.is_empty());
}
