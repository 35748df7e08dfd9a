use candlelight::command::{interpret, ArgError, Args, Command};
use candlelight::input::InputError;
use candlelight::session::{Action, Event, Phase, Session, PREVIEW_SECONDS};

fn args(query: bool, preview: bool, minimum: bool, maximum: bool, input: Option<Result<u16, InputError>>) -> Args {
    Args { query, preview, minimum, maximum, input }
}

#[test]
fn minimum_with_maximum_conflicts() {
    assert_eq!(interpret(args(false, false, true, true, None)), Err(ArgError::Conflict));
}

#[test]
fn input_with_minimum_conflicts() {
    assert_eq!(interpret(args(false, false, true, false, Some(Ok(10)))), Err(ArgError::Conflict));
    assert_eq!(interpret(args(false, false, false, true, Some(Ok(10)))), Err(ArgError::Conflict));
}

#[test]
fn query_with_level_conflicts() {
    assert_eq!(interpret(args(true, false, false, false, Some(Ok(10)))), Err(ArgError::Conflict));
    assert_eq!(interpret(args(true, false, true, false, None)), Err(ArgError::Conflict));
}

#[test]
fn conflict_comes_before_refused_input() {
    assert_eq!(
        interpret(args(false, false, true, false, Some(Err(InputError::TooHigh)))),
        Err(ArgError::Conflict)
    );
}

#[test]
fn preview_needs_a_level() {
    assert_eq!(interpret(args(false, true, false, false, None)), Err(ArgError::MissingInput));
}

#[test]
fn no_level_is_a_query() {
    assert_eq!(interpret(args(false, false, false, false, None)), Ok(Command::Query));
    assert_eq!(interpret(args(true, false, false, false, None)), Ok(Command::Query));
}

#[test]
fn refused_input_is_reported() {
    assert_eq!(
        interpret(args(false, false, false, false, Some(Err(InputError::TooHigh)))),
        Err(ArgError::Input(InputError::TooHigh))
    );
}

#[test]
fn flags_pick_lowest_and_highest() {
    assert_eq!(
        interpret(args(false, false, true, false, None)),
        Ok(Command::Change { target: 1, preview: false })
    );
    assert_eq!(
        interpret(args(false, true, false, true, None)),
        Ok(Command::Change { target: 7500, preview: true })
    );
    assert_eq!(
        interpret(args(false, false, false, false, Some(Ok(4321)))),
        Ok(Command::Change { target: 4321, preview: false })
    );
}

#[test]
fn minimum_run_writes_one() {
    let cmd = interpret(args(false, false, true, false, None)).unwrap();
    let mut s = Session::new(cmd);
    assert_eq!(s.advance(Event::Begin), Action::WriteLevel(1));
    assert_eq!(s.advance(Event::Written(true)), Action::Stop);
    assert_eq!(s.phase, Phase::Finished);
}

#[test]
fn maximum_run_writes_highest_even_if_write_fails() {
    let cmd = interpret(args(false, false, false, true, None)).unwrap();
    let mut s = Session::new(cmd);
    assert_eq!(s.advance(Event::Begin), Action::WriteLevel(7500));
    assert_eq!(s.advance(Event::Written(false)), Action::Stop);
}

#[test]
fn preview_writes_pauses_and_restores() {
    let mut s = Session::new(Command::Change { target: 3750, preview: true });
    assert_eq!(s.advance(Event::Begin), Action::ReadLevel);
    assert_eq!(s.advance(Event::Read(Some(1200))), Action::WriteLevel(3750));
    assert_eq!(s.advance(Event::Written(false)), Action::Pause(PREVIEW_SECONDS));
    assert_eq!(PREVIEW_SECONDS, 3);
    assert_eq!(s.advance(Event::Resumed), Action::WriteLevel(1200));
    assert_eq!(s.advance(Event::Written(true)), Action::Stop);
}

#[test]
fn preview_stops_when_read_fails() {
    let mut s = Session::new(Command::Change { target: 3750, preview: true });
    assert_eq!(s.advance(Event::Begin), Action::ReadLevel);
    assert_eq!(s.advance(Event::Read(None)), Action::Stop);
}

#[test]
fn preview_aborts_on_zero_prior() {
    let mut s = Session::new(Command::Change { target: 3750, preview: true });
    assert_eq!(s.advance(Event::Begin), Action::ReadLevel);
    assert_eq!(s.advance(Event::Read(Some(0))), Action::Abort);
}

#[test]
fn query_reads_and_reports() {
    let mut s = Session::new(Command::Query);
    assert_eq!(s.advance(Event::Begin), Action::ReadLevel);
    assert_eq!(s.advance(Event::Read(Some(3750))), Action::Report(3750));
    let mut t = Session::new(Command::Query);
    t.advance(Event::Begin);
    assert_eq!(t.advance(Event::Read(None)), Action::Stop);
}

#[test]
fn unexpected_event_ends_run() {
    let mut s = Session::new(Command::Query);
    assert_eq!(s.advance(Event::Resumed), Action::Stop);
    assert_eq!(s.phase, Phase::Finished);
}
