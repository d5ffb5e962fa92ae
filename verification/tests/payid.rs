use zbx_chain::payid::error::PayIdError;
use zbx_chain::payid::format_pay_id;
use zbx_chain::payid::parser::{parse_normalized_pay_id, parse_pay_id, validate_display_name};
use zbx_chain::payid::registry::PayIdRegistry;
use zbx_chain::payid::resolver::{PayIdResolver, RegistrationRequest, ResolvedPayId, CHAIN_ID_MAINNET};

#[test]
fn parse_simple_name_at_zbx() {
    let p = parse_pay_id("ali@zbx").unwrap();
    assert_eq!(p.name, "ali");
    assert_eq!(p.handle, "zbx");
    assert!(!p.is_sub_id);
    assert_eq!(p.canonical, "ali@zbx");
}

#[test]
fn parse_name_without_at_assumes_zbx() {
    let p = parse_pay_id("salman").unwrap();
    assert_eq!(p.handle, "zbx");
}

#[test]
fn parse_uppercase_normalized() {
    let p = parse_pay_id("ALI@ZBX").unwrap();
    assert_eq!(p.canonical, "ali@zbx");
}

#[test]
fn parse_sub_id() {
    let p = parse_pay_id("shop.ali@zbx").unwrap();
    assert!(p.is_sub_id);
    assert_eq!(p.parent.as_deref(), Some("ali"));
}

#[test]
fn parse_sub_id_without_handle() {
    let p = parse_pay_id("shop.ali").unwrap();
    assert!(p.is_sub_id);
    assert_eq!(p.handle, "zbx");
}

#[test]
fn reject_0x_address() {
    assert!(parse_pay_id("0x742d35Cc6634C").is_err());
}

#[test]
fn reject_empty_handle() {
    assert!(parse_pay_id("ali@").is_err());
}

#[test]
fn reject_too_short_name() {
    assert!(parse_pay_id("ab@zbx").is_err());
}

#[test]
fn reject_special_chars() {
    assert!(parse_pay_id("ali!@zbx").is_err());
}

#[test]
fn reject_leading_hyphen() {
    assert!(parse_pay_id("-ali@zbx").is_err());
}

#[test]
fn validate_display_name_ok() {
    assert!(validate_display_name("Salman Tyagi").is_ok());
    assert!(validate_display_name("María López").is_ok());
    assert!(validate_display_name("O'Brien").is_ok());
}

#[test]
fn validate_display_name_rejects_empty() {
    assert!(validate_display_name("").is_err());
    assert!(validate_display_name("  ").is_err());
}

#[test]
fn validate_display_name_rejects_digits() {
    assert!(validate_display_name("Salman123").is_err());
}

#[test]
fn parse_error_messages() {
    match parse_pay_id("ab@zbx") {
        Err(PayIdError::InvalidFormat(m)) => assert_eq!(m, "'ab' must be 3-32 characters"),
        other => panic!("unexpected {other:?}"),
    }
    match parse_pay_id("ali!") {
        Err(PayIdError::InvalidFormat(m)) => {
            assert_eq!(m, "invalid character '!' in Pay ID name — only a-z, 0-9 and hyphen allowed")
        }
        other => panic!("unexpected {other:?}"),
    }
    match parse_pay_id("ali-@zbx") {
        Err(PayIdError::InvalidFormat(m)) => assert_eq!(m, "'ali-' cannot start or end with hyphen"),
        other => panic!("unexpected {other:?}"),
    }
    match parse_pay_id("ali@") {
        Err(PayIdError::InvalidFormat(m)) => assert_eq!(m, "handle after @ cannot be empty"),
        other => panic!("unexpected {other:?}"),
    }
}

#[test]
fn parse_trims_and_keeps_other_handles() {
    let p = parse_pay_id("  Bob@Upi ").unwrap();
    assert_eq!(p.canonical, "bob@upi");
    assert_eq!(p.handle, "upi");
    let q = parse_normalized_pay_id("shop.ali").unwrap();
    assert_eq!(q.name, "shop.ali");
    assert_eq!(q.canonical, "shop.ali@zbx");
}

#[test]
fn display_name_errors() {
    assert!(matches!(validate_display_name("   "), Err(PayIdError::DisplayNameRequired)));
    match validate_display_name("A") {
        Err(PayIdError::DisplayNameInvalid(m)) => {
            assert_eq!(m, "display name must be at least 2 characters (e.g. 'Salman Tyagi')")
        }
        other => panic!("unexpected {other:?}"),
    }
    match validate_display_name("Salman1") {
        Err(PayIdError::DisplayNameInvalid(m)) => {
            assert_eq!(m, "invalid character '1' — only letters, spaces, hyphens, dots and apostrophes allowed")
        }
        other => panic!("unexpected {other:?}"),
    }
    let long = "a".repeat(65);
    assert!(matches!(validate_display_name(&long), Err(PayIdError::DisplayNameInvalid(_))));
}

#[test]
fn format_pay_id_lowercases() {
    assert_eq!(format_pay_id("Ali"), "ali@zbx");
}

fn sample(pay_id: &str) -> ResolvedPayId {
    ResolvedPayId {
        input: pay_id.to_string(),
        pay_id: pay_id.to_string(),
        display_name: "Ali".to_string(),
        address: format!("0x{}", "a".repeat(40)),
        is_smart_wallet: false,
        chain_id: CHAIN_ID_MAINNET,
    }
}

#[test]
fn resolver_register_and_resolve() {
    let r = PayIdResolver::new("http://localhost:8545".to_string());
    let ok = r
        .register(RegistrationRequest {
            pay_id_name: "ali".to_string(),
            display_name: "Ali Khan".to_string(),
            address: format!("0x{}", "b".repeat(40)),
        })
        .unwrap();
    assert_eq!(ok.pay_id, "ali@zbx");
    assert_eq!(ok.chain_id, CHAIN_ID_MAINNET);
    let bad = r.register(RegistrationRequest {
        pay_id_name: "ali".to_string(),
        display_name: "Ali Khan".to_string(),
        address: "0x12".to_string(),
    });
    assert!(matches!(bad, Err(PayIdError::InvalidFormat(_))));
    let raw = format!("0x{}", "c".repeat(40));
    let res = r.resolve(&raw).unwrap();
    assert_eq!(res.address, raw);
    assert!(matches!(r.resolve("ali@upi"), Err(PayIdError::UnsupportedHandle(h)) if h == "upi"));
    assert!(matches!(r.resolve("ali@zbx"), Err(PayIdError::NotFound(n)) if n == "ali@zbx"));
    assert!(matches!(r.reverse("0x00"), Ok(None)));
}

#[test]
fn registry_insert_get_invalidate() {
    let mut reg = PayIdRegistry::new();
    assert_eq!(reg.len(), 0);
    reg.insert("ali@zbx".to_string(), sample("ali@zbx"));
    reg.insert("bob@zbx".to_string(), sample("bob@zbx"));
    reg.insert("ali@zbx".to_string(), sample("ali@zbx"));
    assert_eq!(reg.len(), 2);
    assert_eq!(reg.get("ali@zbx").unwrap().pay_id, "ali@zbx");
    assert!(reg.get("carol@zbx").is_none());
    reg.invalidate("ali@zbx");
    assert!(reg.get("ali@zbx").is_none());
    assert_eq!(reg.len(), 1);
}

#[test]
fn display_name_refuses_spaces_at_the_ends() {
    for name in [" Ali", "Ali ", "  Salman Tyagi\t"] {
        match validate_display_name(name) {
            Err(PayIdError::DisplayNameInvalid(m)) => {
                assert_eq!(m, "display name cannot start or end with a space")
            }
            other => panic!("{name:?} gave {other:?}"),
        }
    }
    assert!(validate_display_name("Ali Khan").is_ok());
}

#[test]
fn registry_entries_expire_after_five_minutes() {
    let mut reg = PayIdRegistry::new();
    reg.insert("ali@zbx".to_string(), sample("ali@zbx"));
    assert_eq!(reg.lookup_fresh("ali@zbx", 0).unwrap().pay_id, "ali@zbx");
    assert!(reg.lookup_fresh("ali@zbx", 299_999).is_some());
    assert!(reg.lookup_fresh("ali@zbx", 300_000).is_none());
    assert!(reg.lookup_fresh("bob@zbx", 0).is_none());
    assert!(reg.get("ali@zbx").is_some());
}
