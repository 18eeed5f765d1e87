use open_public::email::{
    address_step, classify_error, extract_domain, fqdn, is_disposable_email, mx_step,
    AddressLookup, Blocklist, DnsOutcome, LookupFailure, MxFinding, MxLookup, MxRecord,
    ResponseCode,
};

/// A few entries of the vendored disposable-domain list, in its file format.
const LIST: &str = "# disposable domains\nmailinator.com\n  guerrillamail.com  \n\n10minutemail.com\n";

#[test]
fn known_disposable_domains_are_flagged() {
    let list = Blocklist::parse(LIST);
    assert!(is_disposable_email(&list, "someone@mailinator.com"));
    // Case-insensitive on the domain.
    assert!(is_disposable_email(&list, "Someone@Mailinator.COM"));
}

#[test]
fn ordinary_domains_are_not_flagged() {
    let list = Blocklist::parse(LIST);
    assert!(!is_disposable_email(&list, "someone@gmail.com"));
    assert!(!is_disposable_email(&list, "someone@example.com"));
    // No address shape: not disposable (rejected as invalid elsewhere).
    assert!(!is_disposable_email(&list, "not-an-email"));
}

#[test]
fn the_list_skips_comments_and_blank_lines() {
    let list = Blocklist::parse(LIST);
    assert_eq!(list.len(), 3);
    assert!(list.contains("guerrillamail.com"));
    assert!(!list.contains("# disposable domains"));
    assert!(!list.contains(""));
    assert!(list.is_disposable_email("x@10minutemail.com"));
}

#[test]
fn domain_extraction() {
    assert_eq!(extract_domain("alice@example.com"), Some("example.com"));
    assert_eq!(
        extract_domain("alice.bob+tag@sub.domain.co.uk"),
        Some("sub.domain.co.uk")
    );
    assert_eq!(extract_domain("alice@example.com."), Some("example.com"));
    assert_eq!(
        extract_domain("alice@nested@domain.org"),
        Some("domain.org")
    );

    assert_eq!(extract_domain("no-at-sign.com"), None);
    assert_eq!(extract_domain("@"), None);
    assert_eq!(extract_domain("user@"), None);
    assert_eq!(extract_domain("user@nodot"), None);
    assert_eq!(extract_domain("user@.leading.dot"), None);
    assert_eq!(extract_domain("user@double..dot.com"), None);
    assert_eq!(extract_domain("user@ "), None);
}

#[test]
fn error_classification() {
    assert_eq!(
        classify_error(&LookupFailure::Response(ResponseCode::NxDomain)),
        DnsOutcome::NxDomainOrInvalid
    );
    assert_eq!(classify_error(&LookupFailure::Protocol), DnsOutcome::NxDomainOrInvalid);
    assert_eq!(
        classify_error(&LookupFailure::Response(ResponseCode::Other)),
        DnsOutcome::Transient
    );
    assert_eq!(classify_error(&LookupFailure::Other), DnsOutcome::Transient);
    assert_eq!(
        classify_error(&LookupFailure::NoRecordsFound(ResponseCode::NoError)),
        DnsOutcome::NoRecords
    );
    assert_eq!(
        classify_error(&LookupFailure::NoRecordsFound(ResponseCode::NxDomain)),
        DnsOutcome::NxDomainOrInvalid
    );
}

#[test]
fn null_mx_refuses_and_a_real_exchange_accepts() {
    let null = MxRecord { preference: 0, exchange_is_root: true };
    let real = MxRecord { preference: 10, exchange_is_root: false };
    assert_eq!(mx_step(&MxLookup::Answer(vec![null])), MxFinding::Undeliverable);
    assert_eq!(mx_step(&MxLookup::Answer(vec![null, real])), MxFinding::Deliverable);
    assert_eq!(mx_step(&MxLookup::Answer(vec![])), MxFinding::CheckAddresses);
    assert_eq!(
        mx_step(&MxLookup::Failed(LookupFailure::Other)),
        MxFinding::Deliverable
    );
    assert_eq!(
        mx_step(&MxLookup::Failed(LookupFailure::NoRecordsFound(ResponseCode::NoError))),
        MxFinding::CheckAddresses
    );
    assert_eq!(
        mx_step(&MxLookup::Failed(LookupFailure::Protocol)),
        MxFinding::Undeliverable
    );
}

#[test]
fn the_address_fallback_fails_open_only_on_transient_errors() {
    assert!(address_step(AddressLookup::Answer(true)));
    assert!(!address_step(AddressLookup::Answer(false)));
    assert!(address_step(AddressLookup::Failed(LookupFailure::Other)));
    assert!(!address_step(AddressLookup::Failed(LookupFailure::NoRecordsFound(
        ResponseCode::NoError
    ))));
    assert_eq!(fqdn("example.com"), "example.com.");
}

#[test]
fn a_domain_listed_twice_counts_once() {
    let list = Blocklist::parse("a.test\nb.test\n a.test \n#a.test\n");
    assert_eq!(list.len(), 2);
    assert!(list.contains("a.test"));
    assert!(!list.contains("#a.test"));
}
