use otpc::config::{Config, Credential, NewCredential};
use otpc::candidates::DirectoryEntry;
use otpc::sources::{
    credentials_from_qr_text, credentials_from_source, expand_home, read_listing, url_from_qr_text,
    CaptureStep, Display, FileError, HomeLookup, Listing, ScanError, ScreenScan, Source,
};
use otpc::store::{read_config, StoreError, Stored};
use rxing::{BarcodeFormat, EncodeHints, MultiFormatWriter, Writer};

const URL: &str = "otpauth://totp/GitHub:alice?secret=KRSXG5CTMVRXEZLUKN2XAZLSKNSWG4TFOQ&issuer=GitHub";

/// What the step of a picture with a useful QR code yields.
fn yielded(step: CaptureStep) -> Vec<NewCredential> {
    match step {
        CaptureStep::Ended(scanned) => scanned.unwrap(),
        step => panic!("the scan did not end: {step:?}"),
    }
}

fn unread(step: CaptureStep) -> bool {
    matches!(step, CaptureStep::Unread)
}

/// The pixels of a picture with the QR code of a text.
fn picture(text: &str, width: u32, height: u32) -> Vec<u8> {
    hinted_picture(text, width, height, &EncodeHints::default())
}

/// The pixels of a picture with the QR code of a text, made under hints.
fn hinted_picture(text: &str, width: u32, height: u32, hints: &EncodeHints) -> Vec<u8> {
    let code = MultiFormatWriter
        .encode_with_hints(text, &BarcodeFormat::QR_CODE, width as i32, height as i32, hints)
        .unwrap();
    assert_eq!((code.width(), code.height()), (width, height));
    let mut pixels = Vec::new();
    for y in 0..height {
        for x in 0..width {
            let shade = if code.get(x, y) { 0 } else { 255 };
            pixels.extend([shade, shade, shade, 255]);
        }
    }
    pixels
}

#[test]
fn a_source_is_a_url_or_an_image() {
    match credentials_from_source(URL) {
        Source::Url(credentials) => assert_eq!(credentials.unwrap()[0].name, "alice"),
        Source::Image(_) => panic!("a URL was taken for an image"),
    }
    match credentials_from_source("otpauth-migration://offline") {
        Source::Url(credentials) => assert_eq!(
            credentials.unwrap_err().message(),
            "Error parsing otpauth-migration URL"
        ),
        Source::Image(_) => panic!("a URL was taken for an image"),
    }
    match credentials_from_source("~/qr.png") {
        Source::Image(path) => assert_eq!(path, "~/qr.png"),
        Source::Url(_) => panic!("an image was taken for a URL"),
    }
}

#[test]
fn the_text_of_a_qr_code_is_trimmed() {
    assert_eq!(url_from_qr_text(&format!(" {URL}\n")), URL);
    let credentials = credentials_from_qr_text(&format!("\t{URL} ")).unwrap();
    assert_eq!(credentials[0].issuer, "GitHub");
    assert_eq!(credentials[0].url, URL);
    assert!(credentials_from_qr_text("hello").is_err());
}

#[test]
fn a_scan_needs_a_display() {
    let error = ScreenScan::start(0).unwrap_err();
    assert!(matches!(error, ScanError::NoDisplays));
    assert_eq!(error.message(), "No displays found");
}

#[test]
fn the_first_useful_display_ends_a_scan() {
    let mut scan = ScreenScan::start(3).unwrap();
    assert!(scan.observe(Display::Blank).is_none());
    assert!(scan.observe(Display::Code("hello".to_owned())).is_none());
    let credentials = scan.observe(Display::Code(URL.to_owned())).unwrap().unwrap();
    assert_eq!(credentials.len(), 1);
    assert_eq!(credentials[0].name, "alice");
}

#[test]
fn a_display_that_cannot_be_captured_ends_a_scan() {
    let mut scan = ScreenScan::start(2).unwrap();
    assert!(scan.observe(Display::Code("hello".to_owned())).is_none());
    let error = scan.observe(Display::Uncaptured("denied".to_owned())).unwrap().unwrap_err();
    assert_eq!(
        error.message(),
        "Failed to capture display; screen-recording permission may be required: denied"
    );
}

#[test]
fn the_last_useless_qr_code_is_told() {
    let mut scan = ScreenScan::start(3).unwrap();
    assert!(scan.observe(Display::Code("otpauth://hotp/x".to_owned())).is_none());
    assert!(scan
        .observe(Display::Code("otpauth://totp/alice?secret=JBSWY3DPEHPK3PXP".to_owned()))
        .is_none());
    assert!(scan.observe(Display::Blank).is_none());
    assert_eq!(
        scan.conclude().message(),
        "Screen QR code does not contain a valid OTP URL: TOTP URL is missing an issuer"
    );
}

#[test]
fn a_scan_without_any_qr_code_fails() {
    let mut scan = ScreenScan::start(1).unwrap();
    assert!(scan.observe(Display::Blank).is_none());
    assert_eq!(scan.conclude().message(), "No QR code found on any display");
    assert_eq!(
        ScanError::NoDisplayList("no server".to_owned()).message(),
        "Failed to enumerate displays: no server"
    );
}

#[test]
fn the_qr_code_on_a_picture_is_read() {
    let mut scan = ScreenScan::start(1).unwrap();
    let credentials = yielded(scan.observe_capture(200, 200, picture(URL, 200, 200)));
    assert_eq!(credentials.len(), 1);
    assert_eq!(credentials[0].issuer, "GitHub");
    assert_eq!(credentials[0].url, URL);
}

#[test]
fn a_picture_without_a_useful_qr_code_is_passed_over() {
    let mut scan = ScreenScan::start(3).unwrap();
    assert!(unread(scan.observe_capture(64, 64, vec![255; 64 * 64 * 4])));
    assert!(unread(scan.observe_capture(0, 0, Vec::new())));
    assert!(unread(scan.observe_capture(1, 1, vec![0; 4])));
    let step = scan.observe_capture(200, 200, picture("http://totp/x", 200, 200));
    assert!(matches!(step, CaptureStep::Rejected));
    assert_eq!(
        scan.conclude().message(),
        "Screen QR code does not contain a valid OTP URL: Error parsing otpauth URL: Scheme must be \"otpauth\", not \"http\""
    );
}

#[test]
fn a_picture_without_a_readable_qr_code_changes_nothing() {
    let mut scan = ScreenScan::start(3).unwrap();
    let step = scan.observe_capture(200, 200, picture("otpauth://hotp/x", 200, 200));
    assert!(matches!(step, CaptureStep::Rejected));
    let fault = scan.rejected.as_ref().unwrap().message();
    assert!(unread(scan.observe_capture(64, 64, vec![255; 64 * 64 * 4])));
    let hints = EncodeHints { Gs1Format: Some(true), ..EncodeHints::default() };
    let percent_signs = hinted_picture("%%", 200, 200, &hints);
    assert!(unread(scan.observe_capture(200, 200, percent_signs)));
    assert_eq!(scan.rejected.unwrap().message(), fault);
}

#[test]
fn width_and_height_are_told_apart() {
    let mut scan = ScreenScan::start(2).unwrap();
    assert!(unread(scan.observe_capture(200, 331, picture(URL, 331, 200))));
    let credentials = yielded(scan.observe_capture(331, 200, picture(URL, 331, 200)));
    assert_eq!(credentials[0].url, URL);
}

#[test]
fn too_few_pixels_are_no_picture() {
    let mut scan = ScreenScan::start(1).unwrap();
    let mut pixels = picture(URL, 200, 200);
    pixels.pop();
    assert!(unread(scan.observe_capture(200, 200, pixels)));
    assert!(scan.rejected.is_none());
}

#[test]
fn the_largest_pictures_are_searched() {
    for (width, height) in [(0x7fff, 40), (40, 0x7fff)] {
        let mut scan = ScreenScan::start(3).unwrap();
        let bytes = width as usize * height as usize * 4;
        assert!(unread(scan.observe_capture(width, height, vec![255; bytes])));
        assert!(unread(scan.observe_capture(width, height, vec![0; bytes])));
        let stripes = (0..bytes)
            .map(|byte| if byte % 4 == 3 || byte / 4 % width as usize % 2 == 0 { 255 } else { 0 })
            .collect();
        assert!(unread(scan.observe_capture(width, height, stripes)));
    }
}

#[test]
fn the_home_directory_matters_to_paths_that_lead_there() {
    let found = || HomeLookup::Found("/home/me".to_owned());
    assert_eq!(expand_home("~/x", found()).unwrap(), "/home/me/x");
    assert_eq!(expand_home("a/~", found()).unwrap(), "a/~");
    assert_eq!(expand_home("a", HomeLookup::Missing).unwrap(), "a");
    assert_eq!(expand_home("a", HomeLookup::Failure("why".to_owned())).unwrap(), "a");
    assert!(matches!(expand_home("~", HomeLookup::Missing), Err(FileError::NoHome)));
    assert_eq!(
        expand_home("~/x", HomeLookup::Failure("why".to_owned())).unwrap_err().message(),
        "Failed to determine home directory: why"
    );
}

#[test]
fn a_listing_gives_the_entries_that_can_be_used() {
    let entry = |name: &str| Some(DirectoryEntry { name: name.to_owned(), is_directory: false });
    let listed = vec![None, entry("b"), None, entry("a"), None];
    let entries = read_listing(Listing::Entries(listed)).unwrap();
    let names: Vec<&str> = entries.iter().map(|entry| entry.name.as_str()).collect();
    assert_eq!(names, vec!["b", "a"]);
    assert!(read_listing(Listing::NotFound).unwrap().is_empty());
    let failure = Listing::Failure { path: "/x".to_owned(), cause: "denied".to_owned() };
    assert_eq!(
        read_listing(failure).unwrap_err().message(),
        "Failed to read directory /x: denied"
    );
}

#[test]
fn faults_of_files_are_told() {
    let path = "x.png".to_owned();
    let cause = "why".to_owned();
    for (error, text) in [
        (FileError::UnknownHome(cause.clone()), "Failed to determine home directory: why"),
        (FileError::NoHome, "Home directory not found"),
        (FileError::PathIsNoText { path: path.clone() }, "Image path is not valid UTF-8: x.png"),
        (
            FileError::NoQrCode { path: path.clone(), cause: cause.clone() },
            "Failed to decode QR code in image x.png: why",
        ),
        (FileError::Unlistable { path, cause }, "Failed to read directory x.png: why"),
    ] {
        assert_eq!(error.message(), text);
    }
}

#[test]
fn the_store_is_read_back() {
    let kept = Config {
        next_id: 9,
        credentials: vec![Credential {
            id: 8,
            issuer: "A".to_owned(),
            name: "a".to_owned(),
            url: "u".to_owned(),
        }],
    };
    let config = read_config(Stored::Secret(Ok(kept))).unwrap();
    assert_eq!(config.next_id, 9);
    assert_eq!(config.credentials[0].id, 8);
    let config = read_config(Stored::NoEntry).unwrap();
    assert_eq!(config.next_id, 1);
    assert!(config.credentials.is_empty());
}

#[test]
fn faults_of_the_store_are_told() {
    let error = read_config(Stored::Secret(Err("bad".to_owned()))).unwrap_err();
    assert!(matches!(error, StoreError::Malformed(_)));
    assert_eq!(error.message(), "Failed to parse config from keyring: bad");
    assert_eq!(error.summary(), "Failed to parse config from keyring");
    let error = read_config(Stored::Failure("locked".to_owned())).unwrap_err();
    assert!(matches!(error, StoreError::Unreadable(_)));
    assert_eq!(error.message(), "Failed to read config from keyring: locked");
    assert_eq!(error.summary(), "Failed to read config from keyring");
    let error = StoreError::Unwritable("full".to_owned());
    assert_eq!(error.message(), "Failed to save config to keyring: full");
    assert_eq!(error.summary(), "Failed to save config to keyring");
    let error = StoreError::Unserializable("odd".to_owned());
    assert_eq!(error.message(), "Failed to serialize config: odd");
    assert_eq!(error.summary(), "Failed to serialize config");
}
