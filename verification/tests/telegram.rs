use eurocore::ratelimiter::{Receiver, Target};
use eurocore::response;
use eurocore::telegram::{normalize, Header, Params, Telegram, TgType};
use eurocore::store::JobClass;
use eurocore::worker::{wait_parts, DispatchWorker, RmbPostWorker, TelegramWorker, PERIOD};
use eurocore::dispatch::{IntermediateDispatch, NewDispatch};
use eurocore::rmbpost::IntermediateRmbPost;

const SECOND: u64 = 1_000_000_000;

fn params(sender: &str, id: &str, recipient: &str, kind: TgType) -> Params {
    Params {
        sender: sender.to_string(),
        id: id.to_string(),
        recipient: recipient.to_string(),
        secret_key: "secret".to_string(),
        tg_type: kind,
    }
}

fn add_job(job_id: i32, nation: &str) -> IntermediateDispatch {
    IntermediateDispatch::add(
        job_id,
        "author".to_string(),
        NewDispatch {
            nation: nation.to_string(),
            title: "T".to_string(),
            text: "x".to_string(),
            category: 1,
            subcategory: 100,
        },
    )
    .unwrap()
}

#[test]
fn telegram_is_made_from_params() {
    let telegram = Telegram::from_params("client", params("upc", "123", "Some Nation", TgType::Standard));
    assert_eq!(telegram.sender, "upc");
    assert_eq!(telegram.action, "sendTG");
    assert_eq!(telegram.client_key, "client");
    assert_eq!(telegram.telegram_id, "123");
    assert_eq!(telegram.secret_key, "secret");
    assert_eq!(telegram.recipient, "Some Nation");
    assert_eq!(telegram.tg_type, TgType::Standard);
    assert_eq!(telegram.label(), "123:Some Nation");
    assert_eq!(telegram.duplicate(), telegram);
    assert_eq!(telegram.target(), Target::telegram("upc"));
    let header = telegram.header();
    assert_eq!(header.recipient, "Some Nation");
    assert_eq!(header.telegram_id, "123");
    assert!(header.eq(&Header { recipient: "Some Nation".to_string(), telegram_id: "123".to_string() }));
    assert!(!header.eq(&Header { recipient: "Some Nation".to_string(), telegram_id: "124".to_string() }));
    assert!(!header.eq(&Header { recipient: "some nation".to_string(), telegram_id: "123".to_string() }));

    let recruit = Telegram::from_params("client", params("upc", "1", "x", TgType::Recruitment));
    assert_eq!(recruit.target(), Target::recruitment("upc"));
}

#[test]
fn recipient_goes_out_normalized() {
    assert_eq!(normalize("Some Nation"), "some_nation");
    assert_eq!(normalize("UPC"), "upc");
    assert_eq!(normalize("a  B"), "a__b");
    assert_eq!(normalize("ÉCOLE x"), "école_x");
    assert_eq!(normalize(""), "");
    let telegram = Telegram::from_params("client", params("upc", "123", "Some Nation", TgType::Standard));
    let fields: Vec<(String, String)> = [
        ("a", "sendTG"),
        ("client", "client"),
        ("tgid", "123"),
        ("key", "secret"),
        ("to", "some_nation"),
    ]
    .iter()
    .map(|(k, v)| (k.to_string(), v.to_string()))
    .collect();
    assert_eq!(telegram.fields(), fields);
    assert_eq!(
        eurocore::form::to_body(&telegram.fields()),
        Ok("a=sendTG&client=client&tgid=123&key=secret&to=some_nation".to_string())
    );
}

#[test]
fn telegram_kind_has_two_words() {
    assert_eq!(TgType::Recruitment.serialize(), "recruitment");
    assert_eq!(TgType::Standard.serialize(), "standard");
    assert_eq!(TgType::deserialize("recruitment"), Ok(TgType::Recruitment));
    assert_eq!(TgType::deserialize("standard"), Ok(TgType::Standard));
    assert_eq!(TgType::deserialize("Standard"), Err("invalid telegram type".to_string()));
    assert_eq!(TgType::deserialize(""), Err("invalid telegram type".to_string()));
}

#[test]
fn response_values_hold_what_they_are_given() {
    let shown = response::Telegram::new("r", "7");
    assert_eq!(shown.recipient, "r");
    assert_eq!(shown.id, "7");
    let login = response::Login::new("user", "tok");
    assert_eq!(login.username, "user");
    assert_eq!(login.token, "tok");
}

#[test]
fn telegram_worker_keeps_two_queues() {
    let mut worker = TelegramWorker::new("client".to_string());
    worker.queue(vec![
        params("upc", "1", "a", TgType::Standard),
        params("upc", "2", "b", TgType::Recruitment),
        params("upc", "3", "c", TgType::Standard),
        params("upc", "4", "d", TgType::Recruitment),
    ]);
    let shown = worker.list();
    assert_eq!(shown.len(), 2);
    assert_eq!(
        shown.get("recruitment"),
        Some(&vec![response::Telegram::new("b", "2"), response::Telegram::new("d", "4")])
    );
    assert_eq!(
        shown.get("standard"),
        Some(&vec![response::Telegram::new("a", "1"), response::Telegram::new("c", "3")])
    );
    assert_eq!(
        worker.targets(),
        vec![
            Target::recruitment("upc"),
            Target::recruitment("upc"),
            Target::telegram("upc"),
            Target::telegram("upc"),
        ]
    );

    worker.delete(Header { recipient: "c".to_string(), telegram_id: "3".to_string() });
    worker.delete(Header { recipient: "b".to_string(), telegram_id: "2".to_string() });
    worker.delete(Header { recipient: "a".to_string(), telegram_id: "nope".to_string() });
    let shown = worker.list();
    assert_eq!(shown.get("recruitment"), Some(&vec![response::Telegram::new("d", "4")]));
    assert_eq!(shown.get("standard"), Some(&vec![response::Telegram::new("a", "1")]));

    assert_eq!(worker.take(1).unwrap().telegram_id, "1");
    assert_eq!(worker.take(1), None);
    assert_eq!(worker.take(0).unwrap().telegram_id, "4");
    assert_eq!(worker.take(0), None);
}

#[test]
fn recruitment_goes_before_standard() {
    // every cooldown zero but the recruitment one
    let mut limiter = Receiver::new(50, 0, 0, 180 * SECOND, 0);
    let mut worker = TelegramWorker::new("client".to_string());
    worker.queue(vec![
        params("upc", "std", "a", TgType::Standard),
        params("upc", "rec", "b", TgType::Recruitment),
    ]);
    let first = worker.get_telegram(&limiter, 0).unwrap();
    assert_eq!(first.telegram_id, "rec");
    assert_eq!(limiter.acquire_at(first.target(), 0), Ok(()));
    let second = worker.get_telegram(&limiter, 0).unwrap();
    assert_eq!(second.telegram_id, "std");
    assert_eq!(limiter.acquire_at(second.target(), 0), Ok(()));
    assert_eq!(worker.get_telegram(&limiter, 0), None);
}

#[test]
fn standard_waits_for_the_telegram_cooldown() {
    let mut limiter = Receiver::new(50, 0, 30 * SECOND, 180 * SECOND, 0);
    let mut worker = TelegramWorker::new("client".to_string());
    worker.queue(vec![
        params("upc", "std", "a", TgType::Standard),
        params("upc", "rec", "b", TgType::Recruitment),
        params("upc", "rec2", "c", TgType::Recruitment),
    ]);
    let first = worker.get_telegram(&limiter, 0).unwrap();
    assert_eq!(first.telegram_id, "rec");
    assert_eq!(limiter.acquire_at(first.target(), 0), Ok(()));
    // the standard telegram is held back by the telegram cooldown of 30 s
    assert_eq!(worker.get_telegram(&limiter, PERIOD), None);
    assert_eq!(worker.get_telegram(&limiter, 30 * SECOND - PERIOD - 1), None);
    let second = worker.get_telegram(&limiter, 30 * SECOND - PERIOD).unwrap();
    assert_eq!(second.telegram_id, "std");
    assert_eq!(limiter.acquire_at(second.target(), 30 * SECOND - PERIOD), Err(PERIOD as u128));
    // the second recruitment telegram waits for 180 s
    assert_eq!(worker.get_telegram(&limiter, 60 * SECOND), None);
    assert_eq!(worker.get_telegram(&limiter, 180 * SECOND).unwrap().telegram_id, "rec2");
}

#[test]
fn dispatch_worker_posts_the_first_ready_job() {
    let mut limiter = Receiver::new(50, 30 * SECOND, 30 * SECOND, 180 * SECOND, 60 * SECOND);
    let mut worker = DispatchWorker::new();
    assert_eq!(worker.get_dispatch(&limiter, 0), None);
    worker.process_command(add_job(1, "testlandia"));
    worker.process_command(add_job(2, "testlandia"));
    worker.process_command(add_job(3, "other"));
    worker.process_command(IntermediateDispatch::delete(4, "author".to_string(), 9, "testlandia".to_string()));
    assert_eq!(
        worker.targets(),
        vec![
            Target::restricted("testlandia"),
            Target::restricted("testlandia"),
            Target::restricted("other"),
            Target::Standard,
        ]
    );

    let first = worker.get_dispatch(&limiter, 0).unwrap();
    assert_eq!(first.job_id, 1);
    assert_eq!(limiter.acquire_at(first.target(), 0), Ok(()));
    // the second job of the nation is passed over; the next nation's job goes
    let next = worker.get_dispatch(&limiter, PERIOD).unwrap();
    assert_eq!(next.job_id, 3);
    assert_eq!(limiter.acquire_at(next.target(), PERIOD), Ok(()));
    let next = worker.get_dispatch(&limiter, 2 * PERIOD).unwrap();
    assert_eq!(next.job_id, 4);
    assert_eq!(limiter.acquire_at(next.target(), 2 * PERIOD), Ok(()));
    assert_eq!(worker.get_dispatch(&limiter, 3 * PERIOD), None);
    // one tick before the cooldown of 60 s ends the job is picked
    assert_eq!(worker.get_dispatch(&limiter, 60 * SECOND - PERIOD - 1), None);
    let last = worker.get_dispatch(&limiter, 60 * SECOND - PERIOD).unwrap();
    assert_eq!(last.job_id, 2);
    assert_eq!(limiter.acquire_at(last.target(), 60 * SECOND - PERIOD), Err(PERIOD as u128));
    assert_eq!(worker.take(0), None);
}

#[test]
fn rmbpost_worker_posts_the_first_ready_job() {
    let mut limiter = Receiver::new(50, 30 * SECOND, 30 * SECOND, 180 * SECOND, 60 * SECOND);
    let mut worker = RmbPostWorker::new();
    worker.queue_post(IntermediateRmbPost::new(1, "a".to_string(), "r".to_string(), "x".to_string()));
    worker.queue_post(IntermediateRmbPost::new(2, "a".to_string(), "r".to_string(), "y".to_string()));
    worker.queue_post(IntermediateRmbPost::new(3, "b".to_string(), "r".to_string(), "z".to_string()));
    assert_eq!(worker.targets(), vec![Target::restricted("a"), Target::restricted("a"), Target::restricted("b")]);
    let first = worker.get_post(&limiter, 0).unwrap();
    assert_eq!(first.job_id, 1);
    assert_eq!(limiter.acquire_at(first.target(), 0), Ok(()));
    assert_eq!(worker.get_post(&limiter, 0).unwrap().job_id, 3);
    assert_eq!(worker.get_post(&limiter, 0), None);
    assert_eq!(worker.take(5), None);
    assert_eq!(worker.take(0).unwrap().job_id, 2);
}

#[test]
fn wait_is_split_into_seconds_and_nanoseconds() {
    assert_eq!(wait_parts(0), (0, 0));
    assert_eq!(wait_parts(999_999_999), (0, 999_999_999));
    assert_eq!(wait_parts(1_000_000_000), (1, 0));
    assert_eq!(wait_parts(30_050_000_000), (30, 50_000_000));
    assert_eq!(wait_parts(PERIOD as u128), (0, 250_000_000));
    assert_eq!(wait_parts(u64::MAX as u128 * 1_000_000_000 + 5), (u64::MAX, 5));
    assert_eq!(wait_parts(u128::MAX), (u64::MAX, 999_999_999));
}

#[test]
fn polling_location_names_the_job() {
    assert_eq!(JobClass::Dispatch.location(17), "/queue/dispatches/17");
    assert_eq!(JobClass::RmbPost.location(3), "/queue/rmbposts/3");
    assert_eq!(JobClass::Dispatch.location(-1), "/queue/dispatches/-1");
}
