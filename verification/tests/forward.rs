use dp_net::forward::{leg_ended, Forward, Leg, LegAction, Race};

type End = Result<u64, &'static str>;

fn run(ends: &[(Leg, End)]) -> (Vec<bool>, Option<Result<(), &'static str>>) {
    let mut f = Forward::new();
    let mut cancels = Vec::new();
    let mut result = None;
    for (leg, end) in ends {
        let (next, verdict) = f.forward_bidi(*leg, *end);
        f = next;
        cancels.push(verdict.cancel);
        if result.is_none() {
            result = verdict.result;
        }
    }
    (cancels, result)
}

#[test]
fn both_directions_done() {
    let expected = (vec![false, false], Some(Ok(())));
    assert_eq!(run(&[(Leg::Out, Ok(1)), (Leg::Back, Ok(2))]), expected);
    assert_eq!(run(&[(Leg::Back, Ok(2)), (Leg::Out, Ok(1))]), expected);
}

#[test]
fn failure_of_the_way_back_comes_first() {
    assert_eq!(
        run(&[(Leg::Out, Err("out")), (Leg::Back, Err("back"))]),
        (vec![true, true], Some(Err("back")))
    );
    assert_eq!(run(&[(Leg::Back, Err("back"))]), (vec![true], Some(Err("back"))));
}

#[test]
fn failure_of_the_way_out() {
    assert_eq!(run(&[(Leg::Out, Err("out"))]), (vec![true], None));
    assert_eq!(
        run(&[(Leg::Out, Err("out")), (Leg::Back, Ok(0))]),
        (vec![true, false], Some(Err("out")))
    );
    assert_eq!(
        run(&[(Leg::Back, Ok(0)), (Leg::Out, Err("out"))]),
        (vec![false, true], Some(Err("out")))
    );
}

#[test]
fn end_of_one_direction() {
    assert!(matches!(leg_ended::<u8>(Leg::Out, Race::Copied(5)), LegAction::Finish(5)));
    assert!(matches!(leg_ended::<u8>(Leg::Back, Race::Copied(5)), LegAction::Done(5)));
    assert!(matches!(leg_ended(Leg::Out, Race::Failed(9u8)), LegAction::Fail(9)));
    assert!(matches!(leg_ended(Leg::Back, Race::Failed(9u8)), LegAction::Fail(9)));
    assert!(matches!(leg_ended::<u8>(Leg::Out, Race::Cancelled), LegAction::Reset));
    assert!(matches!(leg_ended::<u8>(Leg::Back, Race::Cancelled), LegAction::StopStream));
}
