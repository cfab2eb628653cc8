use eurocore::category::{FactbookCategory, FactbookSubcategory};
use eurocore::dispatch::{Action, Dispatch, EditDispatch, IntermediateDispatch, Mode, NewDispatch};
use eurocore::envelope::{envelope_of, find_field, parse, Envelope};
use eurocore::error::Error;
use eurocore::exchange::{Exchange, Progress, Wire};
use eurocore::form::to_body;
use eurocore::nations::parse_nations;
use eurocore::ratelimiter::Target;
use eurocore::rmbpost::{IntermediateRmbPost, RmbPost};
use eurocore::store::{dispatch_actions, rmbpost_actions, Job, JobClass, Status, StoreAction};

fn new_dispatch() -> NewDispatch {
    NewDispatch {
        nation: "testlandia".to_string(),
        title: "T".to_string(),
        text: "Héllo".to_string(),
        category: 1,
        subcategory: 100,
    }
}

fn pairs(list: &[(&str, &str)]) -> Vec<(String, String)> {
    list.iter().map(|(k, v)| (k.to_string(), v.to_string())).collect()
}

#[test]
fn envelope_is_read_from_xml() {
    assert_eq!(
        parse("<NATIONSTATES><SUCCESS>TOKEN</SUCCESS></NATIONSTATES>"),
        Ok(Envelope { success: Some("TOKEN".to_string()), error: None })
    );
    assert_eq!(
        parse("<NATIONSTATES><ERROR>Bad category</ERROR></NATIONSTATES>"),
        Ok(Envelope { success: None, error: Some("Bad category".to_string()) })
    );
    assert_eq!(
        parse("<NATIONSTATES>\n<SUCCESS>id=42 created</SUCCESS>\n</NATIONSTATES>\n"),
        Ok(Envelope { success: Some("id=42 created".to_string()), error: None })
    );
    assert_eq!(
        parse("<?xml version=\"1.0\"?><NATIONSTATES><SUCCESS>a &lt;b&gt; &amp; c</SUCCESS></NATIONSTATES>"),
        Ok(Envelope { success: Some("a <b> & c".to_string()), error: None })
    );
    assert_eq!(parse("<NATIONSTATES></NATIONSTATES>"), Ok(Envelope { success: None, error: None }));
    assert!(Envelope { success: Some(String::new()), error: None }.is_ok());
    assert!(!Envelope { success: None, error: Some(String::new()) }.is_ok());
}

#[test]
fn broken_xml_is_a_decode_error() {
    assert!(matches!(parse(""), Err(Error::Deserialize(_))));
    assert!(matches!(parse("not xml"), Err(Error::Deserialize(_))));
    assert!(matches!(parse("<NATIONSTATES><SUCCESS>x</NATIONSTATES>"), Err(Error::Deserialize(_))));
}

#[test]
fn fields_are_found_by_name() {
    let fields = pairs(&[("ERROR", "e"), ("SUCCESS", "s"), ("SUCCESS", "later")]);
    assert_eq!(find_field(&fields, "SUCCESS"), Some("s".to_string()));
    assert_eq!(find_field(&fields, "ERROR"), Some("e".to_string()));
    assert_eq!(find_field(&fields, "success"), None);
    assert_eq!(find_field(&Vec::new(), "SUCCESS"), None);
    assert_eq!(
        envelope_of(&fields),
        Envelope { success: Some("s".to_string()), error: Some("e".to_string()) }
    );
}

#[test]
fn body_is_form_urlencoded() {
    assert_eq!(to_body(&Vec::new()), Ok(String::new()));
    assert_eq!(
        to_body(&pairs(&[("a", "b c"), ("text", "H&#233;llo"), ("é", "=&+")])),
        Ok("a=b+c&text=H%26%23233%3Bllo&%C3%A9=%3D%26%2B".to_string())
    );
}

#[test]
fn intermediate_dispatch_checks_the_category() {
    let job = IntermediateDispatch::add(7, "author".to_string(), new_dispatch()).unwrap();
    assert_eq!(job.job_id, 7);
    assert_eq!(job.author, "author");
    assert_eq!(job.nation, "testlandia");
    assert_eq!(
        job.action,
        Action::Add {
            title: "T".to_string(),
            text: "Héllo".to_string(),
            category: FactbookCategory::Factbook(FactbookSubcategory::Overview),
        }
    );
    assert_eq!(job.dispatch_id(), None);
    assert_eq!(job.target(), Target::restricted("testlandia"));

    let mut bad = new_dispatch();
    bad.subcategory = 999;
    assert_eq!(
        IntermediateDispatch::add(7, "author".to_string(), bad),
        Err(Error::InvalidFactbookCategory)
    );

    let edit = EditDispatch { title: "T2".to_string(), text: "x".to_string(), category: 8, subcategory: 845 };
    let job = IntermediateDispatch::edit(8, "author".to_string(), 42, "testlandia".to_string(), edit).unwrap();
    assert_eq!(job.dispatch_id(), Some(42));
    assert_eq!(job.target(), Target::Standard);
    let edit = EditDispatch { title: "T2".to_string(), text: "x".to_string(), category: 8, subcategory: 100 };
    assert_eq!(
        IntermediateDispatch::edit(8, "author".to_string(), 42, "testlandia".to_string(), edit),
        Err(Error::InvalidFactbookCategory)
    );

    let job = IntermediateDispatch::delete(9, "author".to_string(), 42, "testlandia".to_string());
    assert_eq!(job.action, Action::Remove { id: 42 });
    assert_eq!(job.dispatch_id(), Some(42));
    assert_eq!(job.target(), Target::Standard);
}

#[test]
fn dispatch_wire_form_follows_the_action() {
    let job = IntermediateDispatch::add(7, "author".to_string(), new_dispatch()).unwrap();
    let mut wire = Dispatch::from(job);
    assert_eq!(
        wire.fields(),
        pairs(&[
            ("nation", "testlandia"),
            ("c", "dispatch"),
            ("dispatch", "add"),
            ("title", "T"),
            ("text", "Héllo"),
            ("category", "1"),
            ("subcategory", "100"),
            ("mode", "prepare"),
        ])
    );
    wire.set_mode(Mode::Execute);
    wire.set_token("tok".to_string());
    assert_eq!(wire.mode, Mode::Execute);
    assert_eq!(wire.token, Some("tok".to_string()));
    assert_eq!(wire.fields().last(), Some(&("token".to_string(), "tok".to_string())));
    assert_eq!(wire.fields()[7], ("mode".to_string(), "execute".to_string()));

    let job = IntermediateDispatch::delete(9, "author".to_string(), 42, "testlandia".to_string());
    assert_eq!(
        Dispatch::from(job).fields(),
        pairs(&[
            ("dispatchid", "42"),
            ("nation", "testlandia"),
            ("c", "dispatch"),
            ("dispatch", "remove"),
            ("mode", "prepare"),
        ])
    );

    let edit = EditDispatch { title: "T2".to_string(), text: "x".to_string(), category: 3, subcategory: 385 };
    let job = IntermediateDispatch::edit(8, "author".to_string(), -5, "testlandia".to_string(), edit).unwrap();
    assert_eq!(
        Dispatch::from(job).fields(),
        pairs(&[
            ("dispatchid", "-5"),
            ("nation", "testlandia"),
            ("c", "dispatch"),
            ("dispatch", "edit"),
            ("title", "T2"),
            ("text", "x"),
            ("category", "3"),
            ("subcategory", "385"),
            ("mode", "prepare"),
        ])
    );
    assert_eq!(Mode::Prepare.serialize(), "prepare");
    assert_eq!(Mode::Execute.serialize(), "execute");
}

#[test]
fn rmbpost_wire_form_takes_the_token() {
    let job = IntermediateRmbPost::new(3, "testlandia".to_string(), "the_region".to_string(), "hi".to_string());
    assert_eq!(job.job_id, 3);
    assert_eq!(job.target(), Target::restricted("testlandia"));
    let post = RmbPost::from(job);
    assert_eq!(post.nation(), "testlandia");
    assert_eq!(
        post.fields(),
        pairs(&[
            ("c", "rmbpost"),
            ("nation", "testlandia"),
            ("region", "the_region"),
            ("text", "hi"),
            ("mode", "prepare"),
        ])
    );
    let post = post.prepare("tok".to_string());
    assert_eq!(post.mode, Mode::Execute);
    assert_eq!(
        post.fields(),
        pairs(&[
            ("c", "rmbpost"),
            ("nation", "testlandia"),
            ("region", "the_region"),
            ("text", "hi"),
            ("mode", "execute"),
            ("token", "tok"),
        ])
    );
}

#[test]
fn cold_add_runs_through_both_phases() {
    let mut nations = parse_nations("testlandia:pw").unwrap();
    let job = IntermediateDispatch::add(1, "author".to_string(), new_dispatch()).unwrap();
    let mut row = Job::queued(1);

    let (exchange, target) = Exchange::dispatch(job.clone());
    assert_eq!(target, Target::restricted("testlandia"));
    assert_eq!(exchange.nation(), "testlandia");
    assert_eq!(nations.get_password(exchange.nation()), Ok("pw".to_string()));
    assert_eq!(nations.get_pin(exchange.nation()), Ok(String::new()));
    assert_eq!(
        exchange.body(),
        Ok("nation=testlandia&c=dispatch&dispatch=add&title=T&text=H%26%23233%3Bllo&category=1&subcategory=100&mode=prepare".to_string())
    );

    nations.refresh_pin("testlandia", Some("abc123")).unwrap();
    let exchange = match exchange.advance("<NATIONSTATES><SUCCESS>TOKEN</SUCCESS></NATIONSTATES>") {
        Progress::Execute(next, target) => {
            assert_eq!(target, Target::Standard);
            next
        }
        Progress::Done(end) => panic!("ended early: {:?}", end),
    };
    assert_eq!(nations.get_pin(exchange.nation()), Ok("abc123".to_string()));
    assert_eq!(
        exchange.body(),
        Ok("nation=testlandia&c=dispatch&dispatch=add&title=T&text=H%26%23233%3Bllo&category=1&subcategory=100&mode=execute&token=TOKEN".to_string())
    );

    let result = match exchange.advance("<NATIONSTATES><SUCCESS>id=42 created</SUCCESS></NATIONSTATES>") {
        Progress::Done(result) => result,
        Progress::Execute(_, _) => panic!("a third phase"),
    };
    assert_eq!(result, Ok(42));

    let actions = dispatch_actions(&job, &result);
    assert_eq!(actions.len(), 3);
    match &actions[0] {
        StoreAction::UpdateJob(update) => {
            assert_eq!(update.job_id, 1);
            assert_eq!(update.status, Status::Success);
            assert_eq!(update.status.word(JobClass::Dispatch), "success");
            assert_eq!(update.result_id, Some(42));
            assert_eq!(update.error, None);
            row.record(update.clone());
        }
        other => panic!("unexpected {:?}", other),
    }
    assert_eq!(row, Job { id: 1, status: Status::Success, result_id: Some(42), error: None });
    assert_eq!(
        actions[1],
        StoreAction::InsertHeader { dispatch_id: 42, nation: "testlandia".to_string() }
    );
    assert_eq!(
        actions[2],
        StoreAction::InsertContent {
            dispatch_id: 42,
            category: 1,
            subcategory: 100,
            title: "T".to_string(),
            text: "H&#233;llo".to_string(),
            created_by: "author".to_string(),
        }
    );
}

#[test]
fn remote_failure_ends_the_job() {
    let job = IntermediateDispatch::add(1, "author".to_string(), new_dispatch()).unwrap();
    let mut row = Job::queued(1);
    let (exchange, _) = Exchange::dispatch(job.clone());
    let result = match exchange.advance("<NATIONSTATES><ERROR>Bad category</ERROR></NATIONSTATES>") {
        Progress::Done(result) => result,
        Progress::Execute(_, _) => panic!("went on after an error"),
    };
    assert_eq!(result, Err(Error::NationStates("Bad category".to_string())));

    let actions = dispatch_actions(&job, &result);
    assert_eq!(actions.len(), 1);
    match &actions[0] {
        StoreAction::UpdateJob(update) => {
            assert_eq!(update.status, Status::Failure);
            assert_eq!(update.status.word(JobClass::Dispatch), "failure");
            assert_eq!(update.result_id, None);
            assert!(update.error.as_ref().unwrap().contains("Bad category"));
            assert_eq!(update.error, Some("NS error: Bad category".to_string()));
            row.record(update.clone());
        }
        other => panic!("unexpected {:?}", other),
    }
    assert_eq!(row.status, Status::Failure);
    assert_eq!(row.result_id, None);
}

#[test]
fn edit_and_remove_keep_their_identifier() {
    let edit = EditDispatch { title: "T".to_string(), text: "ü".to_string(), category: 1, subcategory: 101 };
    let job = IntermediateDispatch::edit(2, "author".to_string(), 42, "testlandia".to_string(), edit).unwrap();
    let (exchange, target) = Exchange::dispatch(job.clone());
    assert_eq!(target, Target::Standard);
    assert_eq!(exchange.known_id, Some(42));
    let exchange = match exchange.advance_with(Envelope { success: Some("tok".to_string()), error: None }) {
        Progress::Execute(next, target) => {
            assert_eq!(target, Target::Standard);
            next
        }
        Progress::Done(end) => panic!("ended early: {:?}", end),
    };
    // the answer holds other digits; the identifier known before counts
    let end = exchange.advance_with(Envelope { success: Some("edited 7".to_string()), error: None });
    assert_eq!(end, Progress::Done(Ok(42)));
    let actions = dispatch_actions(&job, &Ok(42));
    assert_eq!(actions.len(), 2);
    assert_eq!(
        actions[1],
        StoreAction::InsertContent {
            dispatch_id: 42,
            category: 1,
            subcategory: 101,
            title: "T".to_string(),
            text: "&#252;".to_string(),
            created_by: "author".to_string(),
        }
    );

    let job = IntermediateDispatch::delete(3, "author".to_string(), 42, "testlandia".to_string());
    let (exchange, target) = Exchange::dispatch(job.clone());
    assert_eq!(target, Target::Standard);
    assert_eq!(
        exchange.body(),
        Ok("dispatchid=42&nation=testlandia&c=dispatch&dispatch=remove&mode=prepare".to_string())
    );
    let actions = dispatch_actions(&job, &Ok(42));
    assert_eq!(actions.len(), 2);
    assert_eq!(actions[1], StoreAction::SetInactive { dispatch_id: 42 });
    assert_eq!(dispatch_actions(&job, &Err(Error::Internal)).len(), 1);
}

#[test]
fn answers_without_success_end_the_job() {
    let job = IntermediateDispatch::delete(3, "author".to_string(), 42, "testlandia".to_string());
    let (exchange, _) = Exchange::dispatch(job);
    assert_eq!(
        exchange.clone().advance_with(Envelope { success: None, error: None }),
        Progress::Done(Err(Error::Deserialize("neither SUCCESS nor ERROR".to_string())))
    );
    assert_eq!(
        exchange.clone().advance_with(Envelope { success: None, error: Some("no".to_string()) }),
        Progress::Done(Err(Error::NationStates("no".to_string())))
    );
    assert!(matches!(exchange.clone().advance("garbage"), Progress::Done(Err(Error::Deserialize(_)))));
    assert_eq!(
        exchange.clone().fail("connection reset".to_string()),
        Progress::Done(Err(Error::HTTPClient("connection reset".to_string())))
    );
    // both present: success counts
    assert!(matches!(
        exchange.advance_with(Envelope { success: Some("t".to_string()), error: Some("e".to_string()) }),
        Progress::Execute(_, _)
    ));
}

#[test]
fn add_without_identifier_in_the_answer_fails() {
    let job = IntermediateDispatch::add(1, "author".to_string(), new_dispatch()).unwrap();
    let (exchange, _) = Exchange::dispatch(job);
    let exchange = match exchange.advance_with(Envelope { success: Some("tok".to_string()), error: None }) {
        Progress::Execute(next, target) => {
            assert_eq!(target, Target::Standard);
            next
        }
        Progress::Done(end) => panic!("ended early: {:?}", end),
    };
    assert_eq!(
        exchange.advance_with(Envelope { success: Some("created".to_string()), error: None }),
        Progress::Done(Err(Error::ParseInt("no identifier found".to_string())))
    );
}

#[test]
fn rmbpost_runs_through_both_phases() {
    let job = IntermediateRmbPost::new(5, "testlandia".to_string(), "the region".to_string(), "héllo wörld".to_string());
    let (exchange, target) = Exchange::rmbpost(job);
    assert_eq!(target, Target::restricted("testlandia"));
    assert_eq!(exchange.known_id, None);
    assert_eq!(
        exchange.body(),
        Ok("c=rmbpost&nation=testlandia&region=the+region&text=h%26%23233%3Bllo+w%26%23246%3Brld&mode=prepare".to_string())
    );
    let exchange = match exchange.advance("<NATIONSTATES><SUCCESS>tok</SUCCESS></NATIONSTATES>") {
        Progress::Execute(next, target) => {
            assert_eq!(target, Target::Standard);
            next
        }
        Progress::Done(end) => panic!("ended early: {:?}", end),
    };
    assert!(matches!(&exchange.wire, Wire::RmbPost(post) if post.token == Some("tok".to_string())));
    assert_eq!(
        exchange.body(),
        Ok("c=rmbpost&nation=testlandia&region=the+region&text=h%26%23233%3Bllo+w%26%23246%3Brld&mode=execute&token=tok".to_string())
    );
    let end = exchange.advance(
        "<NATIONSTATES><SUCCESS>Your message has been lodged! &lt;a href=\"/region=the_region/page=display_region_rmb?postid=567#p567\"&gt;</SUCCESS></NATIONSTATES>",
    );
    assert_eq!(end, Progress::Done(Ok(567)));

    let actions = rmbpost_actions(5, &Ok(567));
    assert_eq!(actions.len(), 1);
    match &actions[0] {
        StoreAction::UpdateJob(update) => {
            assert_eq!(update.job_id, 5);
            assert_eq!(update.status, Status::Success);
            assert_eq!(update.result_id, Some(567));
            assert_eq!(update.error, Some(String::new()));
        }
        other => panic!("unexpected {:?}", other),
    }
    let actions = rmbpost_actions(5, &Err(Error::NationStates("nope".to_string())));
    match &actions[0] {
        StoreAction::UpdateJob(update) => {
            assert_eq!(update.status, Status::Failure);
            assert_eq!(update.status.word(JobClass::RmbPost), "error");
            assert_eq!(update.result_id, None);
            assert_eq!(update.error, Some("NS error: nope".to_string()));
        }
        other => panic!("unexpected {:?}", other),
    }
}

#[test]
fn a_job_row_ends_once() {
    let mut row = Job::queued(1);
    assert_eq!(row.status, Status::Queued);
    assert_eq!(Status::Queued.word(JobClass::Dispatch), "queued");
    // a write for another job, or one that ends nothing, changes nothing
    let mut other = eurocore::store::update_job(2, JobClass::Dispatch, &Ok(5));
    row.record(other.clone());
    assert_eq!(row, Job::queued(1));
    other.job_id = 1;
    other.status = Status::Queued;
    row.record(other);
    assert_eq!(row, Job::queued(1));

    row.record(eurocore::store::update_job(1, JobClass::Dispatch, &Err(Error::Internal)));
    let ended = row.clone();
    assert_eq!(ended.status, Status::Failure);
    assert_eq!(ended.error, Some("Internal server error".to_string()));
    // no later write changes the row
    row.record(eurocore::store::update_job(1, JobClass::Dispatch, &Ok(42)));
    assert_eq!(row, ended);
}
