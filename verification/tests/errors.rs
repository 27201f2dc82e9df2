use nu_plugin_herdr_navigate_directory::error::{Error, ErrorKind};

#[test]
fn domain_error_kind_names_match_the_design() {
    let cases = [
        (ErrorKind::InvalidPath, "invalid_path"),
        (ErrorKind::UnsupportedPlatform, "unsupported_platform"),
        (ErrorKind::InvalidHerdrContext, "invalid_herdr_context"),
        (ErrorKind::IncompatibleHerdr, "incompatible_herdr"),
        (ErrorKind::HerdrTimeout, "herdr_timeout"),
        (ErrorKind::HerdrTransport, "herdr_transport"),
        (ErrorKind::HerdrProtocol, "herdr_protocol"),
        (ErrorKind::HerdrAction, "herdr_action"),
    ];
    for (kind, expected) in cases {
        assert_eq!(kind.as_str(), expected);
        assert_eq!(kind.to_string(), expected);
    }
}

#[test]
fn mod_error_kind_names_match_the_design() {
    let cases = [
        (ErrorKind::InvalidPath, "invalid_path"),
        (ErrorKind::UnsupportedPlatform, "unsupported_platform"),
        (ErrorKind::InvalidHerdrContext, "invalid_herdr_context"),
        (ErrorKind::InvalidConfiguration, "invalid_configuration"),
        (ErrorKind::IncompatibleHerdr, "incompatible_herdr"),
        (ErrorKind::HerdrTimeout, "herdr_timeout"),
        (ErrorKind::HerdrTransport, "herdr_transport"),
        (ErrorKind::HerdrProtocol, "herdr_protocol"),
        (ErrorKind::HerdrAction, "herdr_action"),
    ];
    for (kind, expected) in cases {
        assert_eq!(kind.as_str(), expected);
        assert_eq!(kind.to_string(), expected);
    }
}

#[test]
fn each_constructor_sets_its_kind_and_keeps_the_message() {
    let cases = [
        (Error::invalid_path("m".into()), ErrorKind::InvalidPath),
        (Error::unsupported_platform("m".into()), ErrorKind::UnsupportedPlatform),
        (Error::invalid_herdr_context("m".into()), ErrorKind::InvalidHerdrContext),
        (Error::invalid_configuration("m".into()), ErrorKind::InvalidConfiguration),
        (Error::incompatible_herdr("m".into()), ErrorKind::IncompatibleHerdr),
        (Error::herdr_timeout("m".into()), ErrorKind::HerdrTimeout),
        (Error::herdr_transport("m".into()), ErrorKind::HerdrTransport),
        (Error::herdr_protocol("m".into()), ErrorKind::HerdrProtocol),
        (Error::herdr_action("m".into()), ErrorKind::HerdrAction),
    ];
    for (error, kind) in cases {
        assert_eq!(error.kind(), kind);
        assert_eq!(error.message(), "m");
        assert_eq!(error.duplicate(), error);
    }
    assert_eq!(Error::new(ErrorKind::HerdrAction, "x".into()), Error::herdr_action("x".into()));
}
