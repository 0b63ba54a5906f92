use client_bridge::address::Address;
use client_bridge::encode::{
    append_balance_array, append_hex_string, append_output_array, append_output_info,
    AddressBalance, OutputInfo,
};
use client_bridge::text::{append_dec, append_json_string, append_str};

fn text(v: &[char]) -> String {
    v.iter().collect()
}

#[test]
fn decimal_rendering_exact() {
    let mut out: Vec<char> = Vec::new();
    append_dec(&mut out, 0);
    assert_eq!(text(&out), "0");
    let mut out: Vec<char> = Vec::new();
    append_dec(&mut out, 7);
    assert_eq!(text(&out), "7");
    let mut out: Vec<char> = Vec::new();
    append_dec(&mut out, 1009);
    assert_eq!(text(&out), "1009");
    let mut out: Vec<char> = Vec::new();
    append_dec(&mut out, u64::MAX);
    assert_eq!(text(&out), "18446744073709551615");
}

#[test]
fn hex_rendering_exact() {
    let mut out: Vec<char> = Vec::new();
    append_hex_string(&mut out, &vec![0x00u8, 0xff, 0x1a]);
    assert_eq!(text(&out), "\"00ff1a\"");
    let mut out: Vec<char> = Vec::new();
    append_hex_string(&mut out, &Vec::new());
    assert_eq!(text(&out), "\"\"");
}

#[test]
fn json_string_escaping() {
    let mut plain: Vec<char> = Vec::new();
    append_str(&mut plain, "say \"hi\" \\ now\n");
    let mut out: Vec<char> = Vec::new();
    append_json_string(&mut out, &plain);
    assert_eq!(text(&out), "\"say \\\"hi\\\" \\\\ now\\u000a\"");
}

#[test]
fn output_metadata_record_exact() {
    let address = Address::parse("a12uel5l").expect("valid bech32");
    let m = OutputInfo {
        message_id: vec![0u8; 32],
        transaction_id: vec![0xabu8; 32],
        output_index: 3,
        is_spent: false,
        address,
        amount: 1_000_000,
    };
    let mut out: Vec<char> = Vec::new();
    append_output_info(&mut out, &m);
    let zeros = "0".repeat(64);
    let abs = "ab".repeat(32);
    let expected = format!(
        "{{\"messageId\":\"{}\",\"transactionId\":\"{}\",\"outputIndex\":3,\"isSpent\":false,\"address\":\"a12uel5l\",\"amount\":1000000}}",
        zeros, abs
    );
    assert_eq!(text(&out), expected);
    let parsed: serde_json::Value = serde_json::from_str(&text(&out)).expect("valid json");
    assert_eq!(parsed["outputIndex"], serde_json::Value::from(3u64));
    assert_eq!(parsed["address"], serde_json::Value::from("a12uel5l"));
}

#[test]
fn output_array_exact() {
    let a1 = Address::parse("a12uel5l").expect("valid bech32");
    let a2 = Address::parse("a12uel5l").expect("valid bech32");
    let mk = |address: Address, spent: bool| OutputInfo {
        message_id: vec![0u8; 32],
        transaction_id: vec![0u8; 32],
        output_index: 0,
        is_spent: spent,
        address,
        amount: 1,
    };
    let mut out: Vec<char> = Vec::new();
    append_output_array(&mut out, &Vec::new());
    assert_eq!(text(&out), "[]");
    let mut out: Vec<char> = Vec::new();
    append_output_array(&mut out, &vec![mk(a1, true), mk(a2, false)]);
    let s = text(&out);
    assert!(s.starts_with("[{\"messageId\":"));
    assert!(s.contains("},{"));
    assert!(s.ends_with("}]"));
    let parsed: serde_json::Value = serde_json::from_str(&s).expect("valid json");
    assert_eq!(parsed.as_array().map(|a| a.len()), Some(2));
    assert_eq!(parsed[0]["isSpent"], serde_json::Value::from(true));
    assert_eq!(parsed[1]["isSpent"], serde_json::Value::from(false));
}

#[test]
fn balance_array_exact() {
    let address = Address::parse("bc1qw508d6qejxtdg4y5r3zarvary0c5xw7kv8f3t4").expect("valid");
    let mut out: Vec<char> = Vec::new();
    append_balance_array(&mut out, &vec![AddressBalance { address, balance: 42 }]);
    assert_eq!(
        text(&out),
        "[{\"address\":\"bc1qw508d6qejxtdg4y5r3zarvary0c5xw7kv8f3t4\",\"balance\":42}]"
    );
}
