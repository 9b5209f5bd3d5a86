use wenmeng::http_helper::{HandleAction, HandleEvent, HandleState};
use wenmeng::HttpHelper;

fn run(count: usize, events: &[HandleEvent]) -> Vec<HandleAction> {
    let (mut s, first) = HandleState::new(count);
    let mut out = vec![first];
    for e in events {
        out.push(HttpHelper::handle_step(&mut s, *e));
    }
    out
}

#[test]
fn middlewares_see_the_request_in_order_and_the_response_in_reverse() {
    let d = HandleEvent::Done;
    assert_eq!(
        run(2, &[d, d, d, d, d, d]),
        vec![HandleAction::Prepare, HandleAction::ProcessRequest(0), HandleAction::ProcessRequest(1), HandleAction::Operate, HandleAction::ProcessResponse(1), HandleAction::ProcessResponse(0), HandleAction::Respond]
    );
}

#[test]
fn a_middleware_answer_skips_the_callback() {
    let d = HandleEvent::Done;
    assert_eq!(
        run(3, &[d, d, HandleEvent::Answered, d, d, d]),
        vec![HandleAction::Prepare, HandleAction::ProcessRequest(0), HandleAction::ProcessRequest(1), HandleAction::ProcessResponse(2), HandleAction::ProcessResponse(1), HandleAction::ProcessResponse(0), HandleAction::Respond]
    );
}

#[test]
fn a_failing_callback_is_reported_and_answered_with_500() {
    let d = HandleEvent::Done;
    assert_eq!(
        run(2, &[d, d, d, HandleEvent::Refused, d, d, d, d, d]),
        vec![
            HandleAction::Prepare,
            HandleAction::ProcessRequest(0),
            HandleAction::ProcessRequest(1),
            HandleAction::Operate,
            HandleAction::ReportError(0),
            HandleAction::ReportError(1),
            HandleAction::AnswerServerError { status: 500 },
            HandleAction::ProcessResponse(1),
            HandleAction::ProcessResponse(0),
            HandleAction::Respond
        ]
    );
}

#[test]
fn without_middlewares_the_callback_answers_directly() {
    let d = HandleEvent::Done;
    assert_eq!(run(0, &[d, d]), vec![HandleAction::Prepare, HandleAction::Operate, HandleAction::Respond]);
    assert_eq!(run(0, &[d, HandleEvent::Refused, d]), vec![HandleAction::Prepare, HandleAction::Operate, HandleAction::AnswerServerError { status: 500 }, HandleAction::Respond]);
}

#[test]
fn any_failure_ends_the_exchange() {
    let d = HandleEvent::Done;
    assert_eq!(run(2, &[d, HandleEvent::Failed]), vec![HandleAction::Prepare, HandleAction::ProcessRequest(0), HandleAction::Fail]);
    assert_eq!(run(1, &[d, d, d, HandleEvent::Failed]), vec![HandleAction::Prepare, HandleAction::ProcessRequest(0), HandleAction::Operate, HandleAction::ProcessResponse(0), HandleAction::Fail]);
}

#[test]
fn error_answer_body() {
    assert_eq!(HttpHelper::server_error_body(), b"server inner error".to_vec());
}
