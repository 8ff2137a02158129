//! Traffic report, metrics text, captcha image and query parameter tests.

use zorv::server::admin::captcha::MAX_CAPTCHA_GLYPHS;
use zorv::server::admin::{captcha_svg_with, gen_captcha_svg, query_value, GlyphJitter, NoiseLine};
use zorv::server::report::{metrics_text, traffic_entries};
use zorv::server::traffic::{TrafficCounter, TrafficTable};

fn counter(tcp_up: u64, tcp_down: u64, udp_up: u64, udp_down: u64) -> TrafficCounter {
    TrafficCounter { tcp_up, tcp_down, udp_up, udp_down }
}

#[test]
fn traffic_report_lists_totals() {
    let mut totals = TrafficTable::new();
    totals.add("c1", &counter(100, 200, 10, 20));
    let list = traffic_entries(&totals, &Vec::new());
    assert_eq!(list.len(), 1);
    assert_eq!(list[0].client_id, "c1");
    assert_eq!(list[0].counter.tcp_up, 100);
    assert_eq!(list[0].counter.tcp_down, 200);
    assert_eq!(list[0].counter.udp_up, 10);
    assert_eq!(list[0].counter.udp_down, 20);
    assert!(!list[0].online);
}

#[test]
fn traffic_report_includes_online_clients_without_totals() {
    let totals = TrafficTable::new();
    let list = traffic_entries(&totals, &vec!["c2".to_string()]);
    assert_eq!(list.len(), 1);
    assert_eq!(list[0].client_id, "c2");
    assert!(list[0].online);
    assert_eq!(list[0].counter.tcp_up, 0);
    assert_eq!(list[0].counter.udp_down, 0);
}

#[test]
fn traffic_report_is_sorted_by_client_id() {
    let mut totals = TrafficTable::new();
    totals.add("zeta", &counter(1, 0, 0, 0));
    totals.add("alpha", &counter(2, 0, 0, 0));
    totals.add("mid", &counter(3, 0, 0, 0));
    let list = traffic_entries(&totals, &vec!["beta".to_string(), "mid".to_string()]);
    let ids: Vec<&str> = list.iter().map(|e| e.client_id.as_str()).collect();
    assert_eq!(ids, vec!["alpha", "beta", "mid", "zeta"]);
    let online: Vec<bool> = list.iter().map(|e| e.online).collect();
    assert_eq!(online, vec![false, true, true, false]);
    assert_eq!(list[2].counter.tcp_up, 3);
}

#[test]
fn metrics_accessible_without_traffic() {
    let body = metrics_text(0, 0, 0, &TrafficTable::new());
    assert!(body.contains("zorv_online_clients 0"));
    assert!(body.contains("zorv_configured_proxies 0"));
    assert!(body.contains("zorv_active_streams 0"));
    assert!(body.starts_with("# HELP zorv_online_clients Current number of online clients\n"));
    assert!(body.ends_with("# TYPE zorv_traffic_udp_down_bytes_total counter\n"));
}

#[test]
fn metrics_include_traffic_and_online() {
    let mut totals = TrafficTable::new();
    totals.add("c-hist", &counter(100, 200, 10, 20));
    totals.add("c-online", &counter(7, 8, 9, 10));
    let body = metrics_text(1, 2, 3, &totals);
    assert!(body.contains("zorv_online_clients 1\n"));
    assert!(body.contains("zorv_configured_proxies 2\n"));
    assert!(body.contains("zorv_active_streams 3\n"));
    assert!(body.contains("zorv_traffic_tcp_up_bytes_total{client_id=\"c-hist\"} 100\n"));
    assert!(body.contains("zorv_traffic_udp_down_bytes_total{client_id=\"c-hist\"} 20\n"));
    assert!(body.contains("zorv_traffic_tcp_up_bytes_total{client_id=\"c-online\"} 7\n"));
    assert!(body.contains("zorv_traffic_udp_up_bytes_total{client_id=\"c-online\"} 9\n"));
    let hist = body.find("client_id=\"c-hist\"").unwrap();
    let online = body.find("client_id=\"c-online\"").unwrap();
    assert!(hist < online);
}

#[test]
fn metrics_escapes_client_id_labels() {
    let mut totals = TrafficTable::new();
    totals.add(r#"we"ird"#, &counter(1, 0, 0, 0));
    let body = metrics_text(0, 0, 0, &totals);
    assert!(body.contains(r#"client_id="we\"ird""#), "body={body}");
}

#[test]
fn metrics_client_block_is_exact() {
    let mut totals = TrafficTable::new();
    totals.add("a\nb", &counter(1, 2, 3, 4));
    let body = metrics_text(0, 0, 0, &totals);
    let tail = "zorv_traffic_tcp_up_bytes_total{client_id=\"a\\nb\"} 1\n\
                zorv_traffic_tcp_down_bytes_total{client_id=\"a\\nb\"} 2\n\
                zorv_traffic_udp_up_bytes_total{client_id=\"a\\nb\"} 3\n\
                zorv_traffic_udp_down_bytes_total{client_id=\"a\\nb\"} 4\n";
    assert!(body.ends_with(tail), "body={body}");
}

#[test]
fn captcha_svg_with_fixed_choices() {
    let lines = vec![NoiseLine { x1: 1, y1: 2, x2: 3, y2: 4, color: 0 }; 5];
    let glyphs = vec![
        GlyphJitter { dx: -3, dy: 4, rot: -22, color: 1 },
        GlyphJitter { dx: 0, dy: 0, rot: 5, color: 4 },
    ];
    let svg = captcha_svg_with("AB", &lines, &glyphs);
    assert!(svg.starts_with(
        "<svg xmlns=\"http://www.w3.org/2000/svg\" width=\"140\" height=\"48\" viewBox=\"0 0 140 48\"><rect width=\"140\" height=\"48\" rx=\"6\" fill=\"#f8fafc\"/>"
    ));
    assert_eq!(
        svg.matches(
            "<line x1=\"1\" y1=\"2\" x2=\"3\" y2=\"4\" stroke=\"#334155\" stroke-width=\"1.5\" opacity=\"0.45\"/>"
        )
        .count(),
        5
    );
    assert!(svg.contains(
        "<text x=\"15\" y=\"38\" font-family=\"monospace\" font-size=\"30\" font-weight=\"bold\" fill=\"#b91c1c\" transform=\"rotate(-22 15 38)\">A</text>"
    ));
    assert!(svg.contains(
        "<text x=\"45\" y=\"34\" font-family=\"monospace\" font-size=\"30\" font-weight=\"bold\" fill=\"#7c3aed\" transform=\"rotate(5 45 34)\">B</text></svg>"
    ));
    assert!(svg.ends_with("</svg>"));
}

#[test]
fn captcha_svg_has_one_glyph_per_char() {
    let svg = gen_captcha_svg("ABCD");
    assert!(svg.starts_with("<svg"));
    assert!(svg.ends_with("</svg>"));
    assert_eq!(svg.matches("<line ").count(), 5);
    assert_eq!(svg.matches("<text ").count(), 4);
    for ch in ["A", "B", "C", "D"] {
        assert!(svg.contains(&format!(">{ch}</text>")));
    }
    assert!(MAX_CAPTCHA_GLYPHS > 4);
}

#[test]
fn query_value_finds_first_matching_key() {
    assert_eq!(query_value("name=web&x=1", "name"), Some("web".to_string()));
    assert_eq!(query_value("x=1&name=a%20b&name=c", "name"), Some("a%20b".to_string()));
    assert_eq!(query_value("name&name=v", "name"), Some("v".to_string()));
    assert_eq!(query_value("name=", "name"), Some(String::new()));
    assert_eq!(query_value("name=a=b", "name"), Some("a=b".to_string()));
    assert_eq!(query_value("names=1", "name"), None);
    assert_eq!(query_value("", "name"), None);
    assert_eq!(query_value("a=1&", "name"), None);
}
