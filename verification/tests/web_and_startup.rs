use skekbot_rs::startup::{banner_layout, startup_lines};
use skekbot_rs::web::routes::activity::{activity_set_reply, plan_set_activity, ActivityTypeProxy, SetActivityRequest};
use skekbot_rs::web::routes::message::{
    plan_send_message, send_result_reply, MessageRequest,
};
use skekbot_rs::web::{asset_path, authorize};

fn request(channel: &str, reply: Option<&str>) -> MessageRequest {
    MessageRequest {
        channel_id: channel.to_string(),
        message: "hello".to_string(),
        reply_to_id: reply.map(String::from),
    }
}

#[test]
fn bearer_password_is_required() {
    assert!(authorize(Some("Bearer pw"), "pw").is_ok());
    let e = authorize(None, "pw").unwrap_err();
    assert_eq!((e.status, e.body.success, e.body.message.as_str()), (401, false, "Unauthorised"));
    let e = authorize(Some("Bearer nope"), "pw").unwrap_err();
    assert_eq!((e.status, e.body.success, e.body.message.as_str()), (403, false, "Forbidden"));
    assert!(authorize(Some("pw"), "pw").is_err());
}

#[test]
fn assets_by_path() {
    assert_eq!(asset_path("/"), "index.html");
    assert_eq!(asset_path(""), "index.html");
    assert_eq!(asset_path("///css/site.css"), "css/site.css");
    assert_eq!(asset_path("img/a.png"), "img/a.png");
}

#[test]
fn send_message_plans() {
    let p = plan_send_message(Some("Bearer pw"), "pw", request("12", None)).unwrap();
    assert_eq!((p.channel_id, p.reply_to, p.content.as_str()), (12, None, "hello"));
    let p = plan_send_message(Some("Bearer pw"), "pw", request("12", Some("34"))).unwrap();
    assert_eq!(p.reply_to, Some(34));
    let e = plan_send_message(Some("Bearer pw"), "pw", request("x", None)).unwrap_err();
    assert_eq!((e.status, e.body.message.as_str()), (400, "Invalid channel ID format"));
    let e = plan_send_message(Some("Bearer pw"), "pw", request("12", Some("y"))).unwrap_err();
    assert_eq!((e.status, e.body.message.as_str()), (400, "Invalid replyToId format"));
    let e = plan_send_message(None, "pw", request("x", None)).unwrap_err();
    assert_eq!(e.status, 401);
}

#[test]
fn zero_ids_are_bad_requests() {
    let e = plan_send_message(Some("Bearer pw"), "pw", request("0", None)).unwrap_err();
    assert_eq!((e.status, e.body.success, e.body.message.as_str()), (400, false, "Invalid channel ID format"));
    let e = plan_send_message(Some("Bearer pw"), "pw", request("0", Some("bad"))).unwrap_err();
    assert_eq!((e.status, e.body.message.as_str()), (400, "Invalid channel ID format"));
    let e = plan_send_message(Some("Bearer pw"), "pw", request("5", Some("0"))).unwrap_err();
    assert_eq!((e.status, e.body.message.as_str()), (400, "Invalid replyToId format"));
    let e = plan_send_message(None, "pw", request("0", None)).unwrap_err();
    assert_eq!(e.status, 401);
}

#[test]
fn send_results() {
    let r = send_result_reply(Ok(()));
    assert_eq!((r.status, r.body.success, r.body.message.as_str()), (200, true, "Success!"));
    let r = send_result_reply(Err("Missing Access".to_string()));
    assert_eq!((r.status, r.body.success, r.body.message.as_str()), (500, false, "Discord Error: Missing Access"));
}

#[test]
fn activity_plans() {
    let req = SetActivityRequest { activity_type: ActivityTypeProxy::Streaming, text: "live".to_string() };
    let p = plan_set_activity(Some("Bearer pw"), "pw", req).unwrap();
    assert_eq!(p.activity_type, ActivityTypeProxy::Streaming);
    assert_eq!(p.text, "live");
    assert_eq!(p.url.as_deref(), Some("https://twitch.tv/discord"));
    let req = SetActivityRequest { activity_type: ActivityTypeProxy::Playing, text: "chess".to_string() };
    assert!(plan_set_activity(Some("Bearer pw"), "pw", req).unwrap().url.is_none());
    let req = SetActivityRequest { activity_type: ActivityTypeProxy::Watching, text: "tv".to_string() };
    assert_eq!(plan_set_activity(Some("Bearer x"), "pw", req).unwrap_err().status, 403);
    let r = activity_set_reply();
    assert_eq!((r.status, r.body.success, r.body.message.as_str()), (200, true, "Status updated successfully!"));
}

#[test]
fn startup_banner_is_centred() {
    let lines = startup_lines("1.0");
    assert_eq!(lines, vec!["skekbot-rs 1.0 by gurkan", "MPL 2.0 license", "1.0"]);
    let l = banner_layout(&lines);
    assert_eq!(l.content_width, 24);
    assert_eq!(l.total_width, 28);
    assert_eq!(l.padding, vec![(0, 0), (4, 5), (10, 11)]);
    let l = banner_layout(&vec!["é".to_string(), "abc".to_string()]);
    assert_eq!(l.content_width, 3);
    assert_eq!(l.padding, vec![(0, 1), (0, 0)]);
    let l = banner_layout(&Vec::new());
    assert_eq!((l.content_width, l.total_width), (0, 4));
}
