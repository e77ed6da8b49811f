use xy_sign_relay::database::{build_request_query, day_pattern};
use xy_sign_relay::error::SignError;
use xy_sign_relay::handler::{health_reply, sign_reply, verify_reply, RequestKind, RequestOutcome};
use xy_sign_relay::models::response::ApiResponse;
use xy_sign_relay::monitor::{
    default_page, default_page_size, is_template_file, page_numbers, password_accepted, total_pages,
    login_step, LoginForm, LoginStep, MonitorFailure,
};
use xy_sign_relay::params::Params;

fn params(pairs: &[(&str, &str)]) -> Params {
    Params::from_pairs(pairs.iter().map(|(k, v)| (k.to_string(), v.to_string())).collect())
}

#[test]
fn api_response_constructors() {
    let ok = ApiResponse::success(5u8);
    assert_eq!(ok.code, 0);
    assert_eq!(ok.message, "success");
    assert_eq!(ok.data, Some(5));
    let err: ApiResponse<u8> = ApiResponse::error(3, "bad".to_string());
    assert_eq!(err.code, 3);
    assert_eq!(err.message, "bad");
    assert!(err.data.is_none());
}

#[test]
fn health_answers_ok() {
    let r = health_reply();
    assert_eq!(r.code, 0);
    assert_eq!(r.data.as_deref(), Some("ok"));
}

#[test]
fn sign_reply_on_success_carries_debug_texts() {
    let p = params(&[("b", "2"), ("a", "1"), ("sign", "old")]);
    let h = sign_reply(&p, Ok("SIG".to_string()));
    assert!(h.kind == RequestKind::Sign);
    assert!(h.outcome == RequestOutcome::Success);
    assert_eq!(h.param_count, 3);
    assert_eq!(h.response.code, 0);
    let d = h.response.data.unwrap();
    assert_eq!(d.sign, "SIG");
    assert_eq!(d.sign_string.as_deref(), Some("a=1&b=2"));
    assert_eq!(d.hash_hex.unwrap().len(), 64);
}

#[test]
fn sign_reply_on_failure() {
    let p = params(&[("a", "1")]);
    let h = sign_reply(&p, Err(SignError::RsaEncryptError("message too long".into())));
    assert!(h.outcome == RequestOutcome::Failed);
    assert_eq!(h.response.code, 1);
    assert_eq!(h.response.message, "签名失败: RSA加密失败: message too long");
    assert!(h.response.data.is_none());
    assert_eq!(h.outcome.label(), "failed");
    assert_eq!(h.kind.label(), "sign");
}

#[test]
fn verify_reply_cases() {
    let p = params(&[("a", "1"), ("sign", "s")]);
    let h = verify_reply(&p, Ok(true));
    assert!(h.kind == RequestKind::Verify);
    assert_eq!(h.outcome.label(), "success");
    let d = h.response.data.unwrap();
    assert!(d.valid);
    assert_eq!(d.verify_string.as_deref(), Some("a=1"));
    let h = verify_reply(&p, Err(SignError::missing_param("sign")));
    assert_eq!(h.response.code, 1);
    assert_eq!(h.response.message, "验签失败: 必要参数缺失: sign");
    assert_eq!(h.kind.label(), "verify");
}

#[test]
fn monitor_defaults_and_password() {
    assert_eq!(default_page(), 1);
    assert_eq!(default_page_size(), 20);
    assert!(password_accepted(&"secret".to_string(), &"secret".to_string()));
    assert!(!password_accepted(&"Secret".to_string(), &"secret".to_string()));
    assert!(!password_accepted(&"".to_string(), &"secret".to_string()));
}

#[test]
fn page_counts() {
    assert_eq!(total_pages(0, 20), 0);
    assert_eq!(total_pages(1, 20), 1);
    assert_eq!(total_pages(40, 20), 2);
    assert_eq!(total_pages(41, 20), 3);
    assert_eq!(total_pages(5, 0), u32::MAX);
    assert_eq!(total_pages(0, 0), 0);
    assert_eq!(total_pages(1 << 53, 1), u32::MAX);
    for (t, s) in [(0i64, 20u32), (1, 20), (40, 20), (41, 20), (5, 0), (0, 0), (1 << 40, 3)] {
        assert_eq!(total_pages(t, s), (t as f64 / s as f64).ceil() as u32);
    }
}

#[test]
fn page_number_windows() {
    assert_eq!(page_numbers(1, 10), vec![1, 2, 3, 4, 5]);
    assert_eq!(page_numbers(5, 10), vec![3, 4, 5, 6, 7]);
    assert_eq!(page_numbers(9, 10), vec![7, 8, 9, 10]);
    assert_eq!(page_numbers(1, 0), Vec::<u32>::new());
    assert_eq!(page_numbers(0, 3), vec![1, 2, 3]);
    assert_eq!(page_numbers(20, 3), Vec::<u32>::new());
}

#[test]
fn template_files() {
    assert!(is_template_file("login.html"));
    assert!(is_template_file(".html"));
    assert!(!is_template_file("style.css"));
    assert!(!is_template_file("html"));
}

#[test]
fn log_query_without_filters() {
    let q = build_request_query(1, 20, "", "", "");
    assert_eq!(q.where_clause, "");
    assert!(q.filter_params.is_empty());
    assert_eq!(q.offset, 0);
    assert_eq!(q.count_sql, "SELECT COUNT(*) FROM requests ");
    assert_eq!(q.data_params, vec!["20".to_string(), "0".to_string()]);
    assert!(q.data_sql.ends_with("LIMIT ? OFFSET ?"));
}

#[test]
fn log_query_with_all_filters() {
    let q = build_request_query(3, 10, "192.168", "sign", "failed");
    assert_eq!(q.where_clause, "WHERE client_ip LIKE ? AND request_type = ? AND result = ?");
    assert_eq!(q.filter_params, vec!["%192.168%", "sign", "failed"]);
    assert_eq!(q.offset, 20);
    assert_eq!(
        q.data_sql,
        "SELECT id, request_type, timestamp, param_count, result, duration_ms, client_ip\n             FROM requests WHERE client_ip LIKE ? AND request_type = ? AND result = ?\n             ORDER BY id DESC\n             LIMIT ? OFFSET ?"
    );
    assert_eq!(q.data_params, vec!["%192.168%", "sign", "failed", "10", "20"]);
}

#[test]
fn log_query_with_one_filter_and_page_zero() {
    let q = build_request_query(0, 5, "", "", "success");
    assert_eq!(q.where_clause, "WHERE result = ?");
    assert_eq!(q.offset, 0);
    assert_eq!(q.count_sql, "SELECT COUNT(*) FROM requests WHERE result = ?");
}

#[test]
fn day_patterns() {
    assert_eq!(day_pattern("2024-01-01"), "2024-01-01%");
}

#[test]
fn io_error_becomes_other_with_its_text() {
    let err = std::io::Error::new(std::io::ErrorKind::Other, "disk gone");
    match SignError::from(err) {
        SignError::Other(m) => assert_eq!(m, "disk gone"),
        _ => panic!("expected Other"),
    }
}

#[test]
fn json_error_becomes_json_parse_error_with_its_text() {
    let err = serde_json::from_str::<u32>("x").unwrap_err();
    let text = err.to_string();
    match SignError::from(err) {
        SignError::JsonParseError(m) => assert_eq!(m, text),
        _ => panic!("expected JsonParseError"),
    }
}

#[test]
fn monitor_failure_texts() {
    assert_eq!(MonitorFailure::LoginPageMissing.text(), "登录页面加载失败");
    assert_eq!(MonitorFailure::LoginErrorPageRender.text(), "登录错误页面渲染失败");
    assert_eq!(MonitorFailure::MonitorPageRender.text(), "监控页面渲染失败");
    assert_eq!(MonitorFailure::Statistics("locked".to_string()).text(), "获取统计信息失败: locked");
    assert_eq!(MonitorFailure::Records("no table".to_string()).text(), "获取请求记录失败: no table");
}

#[test]
fn login_needs_the_configured_password() {
    let configured = "s3cret".to_string();
    assert!(matches!(login_step(&LoginForm::new("s3cret".to_string()), &configured), LoginStep::Admitted));
    match login_step(&LoginForm::new("guess".to_string()), &configured) {
        LoginStep::Refused(m) => assert_eq!(m, "密码错误，请重新输入"),
        LoginStep::Admitted => panic!("a wrong password was admitted"),
    }
    assert!(matches!(login_step(&LoginForm::new(String::new()), &configured), LoginStep::Refused(_)));
}
