use cadvisor::encode::{escape_label_value, go_float_text, sample_line};

/// A finite float as the exposition writes it.
fn f(v: f64) -> String {
    let mut buf = ryu::Buffer::new();
    go_float_text(buf.format_finite(v))
}

#[test]
fn go_g_formatting() {
    assert_eq!(f(0.0), "0");
    assert_eq!(f(1.0), "1");
    assert_eq!(f(8.0), "8");
    assert_eq!(f(100000.0), "100000");
    assert_eq!(f(15079.320663), "15079.320663");
    assert_eq!(f(16.70385), "16.70385");
    assert_eq!(f(13614579712.0), "1.3614579712e+10");
    assert_eq!(f(41504768.0), "4.1504768e+07");
    assert_eq!(f(700592128.0), "7.00592128e+08");
    assert_eq!(f(1784214137.0), "1.784214137e+09");
    assert_eq!(f(0.25), "0.25");
    assert_eq!(f(0.0001), "0.0001");
    assert_eq!(f(0.00001), "1e-05");
    assert_eq!(f(-2597.0), "-2597");
    assert_eq!(f(1e21), "1e+21");
}

#[test]
fn line_rendering() {
    let mut out = String::new();
    sample_line(&mut out, "m_total", &[("id".to_string(), "/a\"b".to_string())], "2", Some(123));
    assert_eq!(out, "m_total{id=\"/a\\\"b\"} 2 123\n");
    out.clear();
    sample_line(&mut out, "m", &[], "0", None);
    assert_eq!(out, "m 0\n");
}

#[test]
fn label_values_are_escaped() {
    let mut out = String::new();
    escape_label_value("a\\b\"c\nd", &mut out);
    assert_eq!(out, "a\\\\b\\\"c\\nd");
}

#[test]
fn float_text_edges() {
    assert_eq!(f(123456.0), "123456");
    assert_eq!(f(1234567.0), "1.234567e+06");
    assert_eq!(f(0.5), "0.5");
    assert_eq!(f(-0.001), "-0.001");
    assert_eq!(f(1e-7), "1e-07");
    assert_eq!(f(1.5e300), "1.5e+300");
}
