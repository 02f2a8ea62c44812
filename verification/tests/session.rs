use jwt_cracker::session::{
    ErrorType, RunningStatus, SearchParams, Session, DEFAULT_MAX_LENGTH, DEFAULT_MIN_LENGTH,
};

fn drain(mut generator: jwt_cracker::combination_generator::CombinationGenerator) -> Vec<String> {
    let mut words = Vec::new();
    while let Some(word) = generator.next() {
        words.push(word);
    }
    words
}

#[test]
fn default_parameters() {
    let params = SearchParams::new();
    assert_eq!(params.min_len, 1);
    assert_eq!(params.max_len, 4);
    assert!(params.use_lowercase && params.use_uppercase && params.use_digits);
    assert!(!params.use_special && !params.use_user_charset);
    assert_eq!(params.user_charset, "");
    assert_eq!(RunningStatus::default(), RunningStatus::OK);
    assert_eq!((DEFAULT_MIN_LENGTH, DEFAULT_MAX_LENGTH), (1, 10));
}

#[test]
fn clamp_lowers_minimum_to_maximum() {
    let mut params = SearchParams::new();
    params.min_len = 7;
    params.max_len = 3;
    params.clamp();
    assert_eq!((params.min_len, params.max_len), (3, 3));
    params.min_len = 2;
    params.clamp();
    assert_eq!((params.min_len, params.max_len), (2, 3));
    params.min_len = 3;
    params.clamp();
    assert_eq!((params.min_len, params.max_len), (3, 3));
}

#[test]
fn validate_rejects_empty_token_first() {
    let mut params = SearchParams::new();
    assert_eq!(params.validate(""), Err(ErrorType::JwtTokenEmpty));
    params.use_user_charset = true;
    assert_eq!(params.validate(""), Err(ErrorType::JwtTokenEmpty));
    assert_eq!(params.validate("x"), Err(ErrorType::UserCharsetEmpty));
}

#[test]
fn validate_rejects_empty_alphabet() {
    let mut params = SearchParams::new();
    assert_eq!(params.validate("a.b.c"), Ok(()));
    params.use_lowercase = false;
    params.use_uppercase = false;
    params.use_digits = false;
    assert_eq!(params.validate("a.b.c"), Err(ErrorType::UserCharsetEmpty));
    params.use_special = true;
    assert_eq!(params.validate("a.b.c"), Ok(()));
    params.use_user_charset = true;
    assert_eq!(params.validate("a.b.c"), Err(ErrorType::UserCharsetEmpty));
    params.user_charset = "xyz".to_string();
    assert_eq!(params.validate("a.b.c"), Ok(()));
    params.use_special = false;
    assert_eq!(params.validate("a.b.c"), Ok(()));
}

#[test]
fn generator_follows_the_parameters() {
    let mut params = SearchParams::new();
    params.max_len = 1;
    assert_eq!(
        drain(params.generator(None)).concat(),
        "abcdefghijklmnopqrstuvwxyzABCDEFGHIJKLMNOPQRSTUVWXYZ0123456789"
    );
    params.use_user_charset = true;
    params.user_charset = "ab".to_string();
    params.max_len = 2;
    assert_eq!(drain(params.generator(None)), vec!["a", "b", "aa", "ab", "ba", "bb"]);
    params.min_len = 2;
    assert_eq!(drain(params.generator(None)), vec!["aa", "ab", "ba", "bb"]);
}

#[test]
fn start_refused_leaves_an_error() {
    let mut session = Session::new();
    assert_eq!(session.status, RunningStatus::OK);
    assert_eq!(session.error_type, ErrorType::Unknown);
    assert!(session.is_editable());
    assert!(session.start("", &SearchParams::new()).is_none());
    assert_eq!(session.status, RunningStatus::Error);
    assert_eq!(session.error_type, ErrorType::JwtTokenEmpty);
    let mut params = SearchParams::new();
    params.use_user_charset = true;
    assert!(session.start("a.b.c", &params).is_none());
    assert_eq!(session.status, RunningStatus::Error);
    assert_eq!(session.error_type, ErrorType::UserCharsetEmpty);
    assert!(session.stop_tx.is_none());
    assert!(session.is_editable());
}

#[test]
fn stop_raises_the_signal_once() {
    let mut session = Session::new();
    let mut params = SearchParams::new();
    params.use_user_charset = true;
    params.user_charset = "ab".to_string();
    let mut generator = session.start("a.b.c", &params).unwrap();
    assert_eq!(session.status, RunningStatus::Running);
    assert!(!session.is_editable());
    assert!(session.stop_tx.is_some());
    assert_eq!(generator.next(), Some("a".to_string()));
    session.stop();
    assert_eq!(session.status, RunningStatus::Stopping);
    assert!(!session.is_editable());
    assert!(session.stop_tx.is_none());
    assert_eq!(generator.next(), None);
    assert!(generator.is_cancelled());
    session.stop();
    assert_eq!(session.status, RunningStatus::Stopping);
    assert_eq!(generator.next(), None);
    session.finish(false);
    assert_eq!(session.status, RunningStatus::Stopped);
    assert!(session.is_editable());
    session.stop();
    assert_eq!(session.status, RunningStatus::Stopped);
}

#[test]
fn stop_without_a_search_changes_nothing() {
    let mut session = Session::new();
    session.stop();
    assert_eq!(session.status, RunningStatus::OK);
    assert_eq!(session.error_type, ErrorType::Unknown);
}

#[test]
fn finish_tells_the_three_outcomes_apart() {
    let params = SearchParams::new();
    let mut found = Session::new();
    let _ = found.start("a.b.c", &params);
    found.finish(true);
    assert_eq!(found.status, RunningStatus::Found);

    let mut exhausted = Session::new();
    let _ = exhausted.start("a.b.c", &params);
    exhausted.finish(false);
    assert_eq!(exhausted.status, RunningStatus::Error);
    assert_eq!(exhausted.error_type, ErrorType::Unknown);

    let mut stopped = Session::new();
    let _ = stopped.start("a.b.c", &params);
    stopped.stop();
    stopped.finish(false);
    assert_eq!(stopped.status, RunningStatus::Stopped);

    let mut found_while_stopping = Session::new();
    let _ = found_while_stopping.start("a.b.c", &params);
    found_while_stopping.stop();
    found_while_stopping.finish(true);
    assert_eq!(found_while_stopping.status, RunningStatus::Found);
}

#[test]
fn fail_and_clear() {
    let mut session = Session::new();
    let generator = session.start("a.b.c", &SearchParams::new());
    session.error_type = ErrorType::SignJWTFailed;
    session.fail();
    assert_eq!(session.status, RunningStatus::Error);
    assert_eq!(session.error_type, ErrorType::Unknown);
    session.error_type = ErrorType::JwtTokenFormatError;
    session.clear();
    assert_eq!(session.status, RunningStatus::OK);
    assert_eq!(session.error_type, ErrorType::Unknown);
    assert!(session.stop_tx.is_none());
    let mut generator = generator.unwrap();
    assert_eq!(generator.next(), None);
    assert!(generator.is_cancelled());
}

#[test]
fn start_lowers_minimum_to_maximum() {
    let mut session = Session::new();
    let mut params = SearchParams::new();
    params.use_user_charset = true;
    params.user_charset = "ab".to_string();
    params.min_len = 3;
    params.max_len = 2;
    let generator = session.start("a.b.c", &params).unwrap();
    assert_eq!(drain(generator), vec!["aa", "ab", "ba", "bb"]);
    assert_eq!(drain(params.generator(None)), vec!["aa", "ab", "ba", "bb"]);
}

#[test]
fn stop_does_not_wait_on_a_full_channel() {
    let (stop_tx, stop_rx) = crossbeam_channel::bounded::<()>(1);
    stop_tx.send(()).unwrap();
    let mut session = Session::new();
    session.status = RunningStatus::Running;
    session.stop_tx = Some(stop_tx);
    session.stop();
    assert_eq!(session.status, RunningStatus::Stopping);
    assert!(session.stop_tx.is_none());
    assert_eq!(stop_rx.try_recv(), Ok(()));
    let (stop_tx, _stop_rx) = crossbeam_channel::bounded::<()>(0);
    session.stop_tx = Some(stop_tx);
    session.clear();
    assert_eq!(session.status, RunningStatus::OK);
    assert!(session.stop_tx.is_none());
}

#[test]
fn refused_start_and_idle_stop_keep_the_sender() {
    let (stop_tx, stop_rx) = crossbeam_channel::unbounded::<()>();
    let mut session = Session::new();
    session.stop_tx = Some(stop_tx);
    assert!(session.start("", &SearchParams::new()).is_none());
    assert!(session.stop_tx.is_some());
    session.stop();
    assert!(session.stop_tx.is_some());
    session.finish(false);
    session.fail();
    assert!(session.stop_tx.is_some());
    assert!(stop_rx.try_recv().is_err());
}
