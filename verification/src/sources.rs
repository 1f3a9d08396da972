//! Where new credentials come from: a URL, an image file, the screen.
use crate::app::optional_text;
use crate::candidates::{DirectoryEntry, DirectoryEntryView};
use crate::config::{views, NewCredential, NewCredentialView};
use crate::otpauth::{
    credentials_from_url, is_credential_url, names_credentials, outcome, url_credentials,
    CredentialError, CredentialErrorView,
};
use crate::paths::{
    expand_home_from, expanded, find_home_suffix, homes_hold_the_rest_of_the_path, is_in_home,
};
use crate::text::{trim, trimmed};
use rxing::common::HybridBinarizer;
use rxing::qrcode::cpp_port::QrReader;
use rxing::Reader;
use std::collections::HashSet;
use vstd::prelude::*;
use vstd::string::StringExecFns;

verus! {

/// What the user named as the source of credentials.
#[derive(Debug)]
pub enum Source {
    /// A URL, and what it yields.
    Url(Result<Vec<NewCredential>, CredentialError>),
    /// The path of an image with a QR code.
    Image(String),
}

/// What the user named as the source of credentials, as a value.
#[verifier::ext_equal]
pub enum SourceView {
    Url(Result<Seq<NewCredentialView>, CredentialErrorView>),
    Image(Seq<char>),
}

impl View for Source {
    type V = SourceView;

    open spec fn view(&self) -> SourceView {
        match self {
            Source::Url(credentials) => SourceView::Url(outcome(*credentials)),
            Source::Image(path) => SourceView::Image(path@),
        }
    }
}

/// The source that a text names: a URL where it begins like one, else an image.
pub open spec fn named_source(text: Seq<char>) -> SourceView {
    if is_credential_url(text) {
        SourceView::Url(url_credentials(text))
    } else {
        SourceView::Image(text)
    }
}

/// The credentials of the source that a text names, or the path of the image to read them from.
pub fn credentials_from_source(source: &str) -> (found: Source)
    ensures
        found@ == named_source(source@),
{
    if names_credentials(source) {
        Source::Url(credentials_from_url(source))
    } else {
        Source::Image(source.to_owned())
    }
}

/// The URL in the text of a QR code.
pub fn url_from_qr_text(decoded: &str) -> (url: String)
    ensures
        url@ == trimmed(decoded@),
{
    trim(decoded)
}

/// The credentials that the text of a QR code stands for.
pub open spec fn qr_credentials(decoded: Seq<char>) -> Result<
    Seq<NewCredentialView>,
    CredentialErrorView,
> {
    url_credentials(trimmed(decoded))
}

/// The credentials that the text of a QR code stands for.
pub fn credentials_from_qr_text(decoded: &str) -> (credentials: Result<
    Vec<NewCredential>,
    CredentialError,
>)
    ensures
        outcome(credentials) == qr_credentials(decoded@),
{
    let url = url_from_qr_text(decoded);
    credentials_from_url(url.as_str())
}

/// What went wrong with a file or a directory.
#[derive(Debug)]
pub enum FileError {
    /// The home directory cannot be found out, for the given reason.
    UnknownHome(String),
    /// There is no home directory.
    NoHome,
    /// The path of an image is no text.
    PathIsNoText { path: String },
    /// An image holds no readable QR code.
    NoQrCode { path: String, cause: String },
    /// A directory cannot be listed.
    Unlistable { path: String, cause: String },
}

impl FileError {
    /// What the user is told.
    pub open spec fn text(self) -> Seq<char> {
        match self {
            FileError::UnknownHome(cause) => "Failed to determine home directory: "@ + cause@,
            FileError::NoHome => "Home directory not found"@,
            FileError::PathIsNoText { path } => "Image path is not valid UTF-8: "@ + path@,
            FileError::NoQrCode { path, cause } => "Failed to decode QR code in image "@ + path@
                + ": "@ + cause@,
            FileError::Unlistable { path, cause } => "Failed to read directory "@ + path@ + ": "@
                + cause@,
        }
    }

    /// What the user is told.
    pub fn message(&self) -> (text: String)
        ensures
            text@ == self.text(),
    {
        match self {
            FileError::UnknownHome(cause) => {
                let mut text = "Failed to determine home directory: ".to_owned();
                text.append(cause.as_str());
                text
            },
            FileError::NoHome => "Home directory not found".to_owned(),
            FileError::PathIsNoText { path } => {
                let mut text = "Image path is not valid UTF-8: ".to_owned();
                text.append(path.as_str());
                text
            },
            FileError::NoQrCode { path, cause } => {
                let mut text = "Failed to decode QR code in image ".to_owned();
                text.append(path.as_str());
                text.append(": ");
                text.append(cause.as_str());
                text
            },
            FileError::Unlistable { path, cause } => {
                let mut text = "Failed to read directory ".to_owned();
                text.append(path.as_str());
                text.append(": ");
                text.append(cause.as_str());
                text
            },
        }
    }
}

/// What comes of asking for the home directory.
#[derive(Debug)]
pub enum HomeLookup {
    Found(String),
    /// There is none.
    Missing,
    /// It cannot be found out, for the given reason.
    Failure(String),
}

/// Puts the home directory in place of a tilde that is the first component of `path`. What came of
/// asking for it matters only to such a path.
pub fn expand_home(path: &str, home: HomeLookup) -> (expanded_path: Result<String, FileError>)
    ensures
        !is_in_home(path@) ==> (expanded_path matches Ok(text) && text@ == path@),
        is_in_home(path@) ==> match home {
            HomeLookup::Found(home) => expanded_path matches Ok(text) && text@ == expanded(
                path@,
                home@,
            ),
            HomeLookup::Missing => expanded_path == Err::<String, FileError>(FileError::NoHome),
            HomeLookup::Failure(cause) => expanded_path == Err::<String, FileError>(
                FileError::UnknownHome(cause),
            ),
        },
{
    if find_home_suffix(path).is_none() {
        return Ok(path.to_owned());
    }
    match home {
        HomeLookup::Found(home) => Ok(expand_home_from(path, home.as_str())),
        HomeLookup::Missing => Err(FileError::NoHome),
        HomeLookup::Failure(cause) => Err(FileError::UnknownHome(cause)),
    }
}

/// What comes of listing a directory.
#[derive(Debug)]
pub enum Listing {
    /// Its entries; nothing stands for one that cannot be read or whose name is no text.
    Entries(Vec<Option<DirectoryEntry>>),
    /// There is no such directory.
    NotFound,
    /// It cannot be listed, for the given reason.
    Failure { path: String, cause: String },
}

/// The entries that can be used, in their order.
pub open spec fn usable(entries: Seq<Option<DirectoryEntry>>) -> Seq<DirectoryEntryView>
    decreases entries.len(),
{
    if entries.len() == 0 {
        Seq::empty()
    } else {
        match entries.last() {
            Some(entry) => usable(entries.drop_last()).push(entry@),
            None => usable(entries.drop_last()),
        }
    }
}

/// The entries of a listed directory: those that can be used, and none where there is no such
/// directory.
pub fn read_listing(listing: Listing) -> (entries: Result<Vec<DirectoryEntry>, FileError>)
    ensures
        match listing {
            Listing::Entries(listed) => entries matches Ok(found) && views(found@) == usable(
                listed@,
            ),
            Listing::NotFound => entries matches Ok(found) && found@.len() == 0,
            Listing::Failure { path, cause } => entries == Err::<Vec<DirectoryEntry>, FileError>(
                FileError::Unlistable { path, cause },
            ),
        },
{
    match listing {
        Listing::Entries(listed) => {
            let ghost all = listed@;
            let mut found: Vec<DirectoryEntry> = Vec::new();
            assert(views(found@) == usable(all.take(0)));
            for entry in iter: listed
                invariant
                    iter.seq() == all,
                    views(found@) == usable(all.take(iter.index())),
            {
                let ghost held = found@;
                assert(all.take(iter.index() + 1).drop_last() == all.take(iter.index()));
                if let Some(entry) = entry {
                    found.push(entry);
                    assert(views(found@) == views(held).push(entry@));
                }
            }
            assert(all.take(all.len() as int) == all);
            Ok(found)
        },
        Listing::NotFound => Ok(Vec::new()),
        Listing::Failure { path, cause } => Err(FileError::Unlistable { path, cause }),
    }
}

/// Why the screen yields no credentials.
#[derive(Debug)]
pub enum ScanError {
    /// The displays cannot be listed, for the given reason.
    NoDisplayList(String),
    /// There is no display.
    NoDisplays,
    /// A display cannot be captured, for the given reason.
    NoCapture(String),
    /// A QR code was found, but the last one that was tried is of no use.
    BadPayload(CredentialError),
    /// No display shows a QR code.
    NoQrCode,
}

/// Why the screen yields no credentials, as a value.
#[verifier::ext_equal]
pub enum ScanErrorView {
    NoDisplayList(Seq<char>),
    NoDisplays,
    NoCapture(Seq<char>),
    BadPayload(CredentialErrorView),
    NoQrCode,
}

impl View for ScanError {
    type V = ScanErrorView;

    open spec fn view(&self) -> ScanErrorView {
        match self {
            ScanError::NoDisplayList(cause) => ScanErrorView::NoDisplayList(cause@),
            ScanError::NoDisplays => ScanErrorView::NoDisplays,
            ScanError::NoCapture(cause) => ScanErrorView::NoCapture(cause@),
            ScanError::BadPayload(error) => ScanErrorView::BadPayload(error@),
            ScanError::NoQrCode => ScanErrorView::NoQrCode,
        }
    }
}

impl ScanErrorView {
    /// What the user is told.
    pub open spec fn text(self) -> Seq<char> {
        match self {
            ScanErrorView::NoDisplayList(cause) => "Failed to enumerate displays: "@ + cause,
            ScanErrorView::NoDisplays => "No displays found"@,
            ScanErrorView::NoCapture(cause) =>
                "Failed to capture display; screen-recording permission may be required: "@ + cause,
            ScanErrorView::BadPayload(error) =>
                "Screen QR code does not contain a valid OTP URL: "@ + error.text(),
            ScanErrorView::NoQrCode => "No QR code found on any display"@,
        }
    }
}

impl ScanError {
    /// What the user is told.
    pub fn message(&self) -> (text: String)
        ensures
            text@ == self@.text(),
    {
        match self {
            ScanError::NoDisplayList(cause) => {
                let mut text = "Failed to enumerate displays: ".to_owned();
                text.append(cause.as_str());
                text
            },
            ScanError::NoDisplays => "No displays found".to_owned(),
            ScanError::NoCapture(cause) => {
                let mut text =
                    "Failed to capture display; screen-recording permission may be required: ".to_owned();
                text.append(cause.as_str());
                text
            },
            ScanError::BadPayload(error) => {
                let mut text = "Screen QR code does not contain a valid OTP URL: ".to_owned();
                text.append(error.message().as_str());
                text
            },
            ScanError::NoQrCode => "No QR code found on any display".to_owned(),
        }
    }
}

/// What a scan makes of a display.
#[derive(Debug)]
pub enum Display {
    /// It cannot be captured, for the given reason.
    Uncaptured(String),
    /// It shows no QR code.
    Blank,
    /// It shows a QR code with the given text.
    Code(String),
}

/// What a scan makes of a display, as a value.
#[verifier::ext_equal]
pub enum DisplayView {
    Uncaptured(Seq<char>),
    Blank,
    Code(Seq<char>),
}

impl View for Display {
    type V = DisplayView;

    open spec fn view(&self) -> DisplayView {
        match self {
            Display::Uncaptured(cause) => DisplayView::Uncaptured(cause@),
            Display::Blank => DisplayView::Blank,
            Display::Code(decoded) => DisplayView::Code(decoded@),
        }
    }
}

/// How a display ends a scan, if it does: one that cannot be captured makes it fail, and one whose
/// QR code yields credentials makes it succeed.
pub open spec fn verdict(display: DisplayView) -> Option<
    Result<Seq<NewCredentialView>, ScanErrorView>,
> {
    match display {
        DisplayView::Uncaptured(cause) => Some(Err(ScanErrorView::NoCapture(cause))),
        DisplayView::Blank => None,
        DisplayView::Code(decoded) => match qr_credentials(decoded) {
            Ok(credentials) => Some(Ok(credentials)),
            Err(_) => None,
        },
    }
}

/// The fault that a scan remembers after a display that does not end it: that of the last QR code.
pub open spec fn remembered(
    rejected: Option<CredentialErrorView>,
    display: DisplayView,
) -> Option<CredentialErrorView> {
    match display {
        DisplayView::Code(decoded) => match qr_credentials(decoded) {
            Ok(_) => rejected,
            Err(error) => Some(error),
        },
        _ => rejected,
    }
}

/// What a scan comes to when no display is left and `rejected` was the last QR code's fault.
pub open spec fn scan_conclusion(rejected: Option<CredentialErrorView>) -> ScanErrorView {
    match rejected {
        Some(error) => ScanErrorView::BadPayload(error),
        None => ScanErrorView::NoQrCode,
    }
}

/// What a scan yielded, as a value.
pub open spec fn scan_outcome(scanned: Result<Vec<NewCredential>, ScanError>) -> Result<
    Seq<NewCredentialView>,
    ScanErrorView,
> {
    match scanned {
        Ok(credentials) => Ok(views(credentials@)),
        Err(error) => Err(error@),
    }
}

/// A scan of the displays, one after the other. It remembers why the last QR code was of no use.
#[derive(Debug)]
pub struct ScreenScan {
    pub rejected: Option<CredentialError>,
}

impl View for ScreenScan {
    type V = Option<CredentialErrorView>;

    open spec fn view(&self) -> Option<CredentialErrorView> {
        match self.rejected {
            Some(error) => Some(error@),
            None => None,
        }
    }
}

/// How a scan ended, if it did, as a value.
pub open spec fn scan_end(ended: Option<Result<Vec<NewCredential>, ScanError>>) -> Option<
    Result<Seq<NewCredentialView>, ScanErrorView>,
> {
    match ended {
        Some(scanned) => Some(scan_outcome(scanned)),
        None => None,
    }
}

/// Whether a scan that remembered `before` goes on from a display, or ends with it, as it should.
pub open spec fn reacts(
    before: Option<CredentialErrorView>,
    display: DisplayView,
    ended: Option<Result<Seq<NewCredentialView>, ScanErrorView>>,
    after: Option<CredentialErrorView>,
) -> bool {
    ended == verdict(display) && after == remembered(before, display)
}

/// What a scan makes of the picture of a display.
#[derive(Debug)]
pub enum CaptureStep {
    /// The QR code on it ends the scan, with what it yields.
    Ended(Result<Vec<NewCredential>, ScanError>),
    /// The QR code on it is of no use, and the scan goes on.
    Rejected,
    /// No QR code is read from it.
    Unread,
}

impl CaptureStep {
    /// How the scan ended, if it did.
    pub open spec fn end(self) -> Option<Result<Seq<NewCredentialView>, ScanErrorView>> {
        match self {
            CaptureStep::Ended(scanned) => Some(scan_outcome(scanned)),
            _ => None,
        }
    }
}

/// Whether a scan that remembered `before` takes a picture from which `decoded` is read as it
/// should: like a display that shows this QR code, or as if there had been no picture.
pub open spec fn takes(
    before: Option<CredentialErrorView>,
    decoded: Option<Seq<char>>,
    step: CaptureStep,
    after: Option<CredentialErrorView>,
) -> bool {
    match decoded {
        Some(text) => !(step is Unread) && reacts(
            before,
            DisplayView::Code(text),
            step.end(),
            after,
        ),
        None => step is Unread && after == before,
    }
}

/// The text of a QR code that `rxing::qrcode::cpp_port::QrReader` finds in an image of `width` by
/// `height` pixels, or nothing where it finds none. It measures with `hypot` and `cos` on
/// floating-point numbers, whose precision differs between machines and calls: `rounding` stands
/// for how they come out.
pub uninterp spec fn qr_text(
    width: u32,
    height: u32,
    pixels: Seq<u8>,
    rounding: int,
) -> Option<Seq<char>>;

/// `decode_with_hints` of `rxing::qrcode::cpp_port::QrReader`, which looks for QR codes alone and
/// tries hard: what `qr_text` names for an image whose pixels, row by row, are red, green, blue
/// and alpha. How the measures are rounded is left open. Where there are too few bytes for the
/// pixels there is no image, and no code.
///
/// The reader counts pixels in 16 bits, at times twice as many as a row or a column has, and
/// panics where they do not fit: so neither may have more than fit 15 bits. Where it finds
/// nothing, `rxing::helpers::detect_in_image` goes on to ask a second reader, `QRCodeReader`.
/// That one takes 1 from an empty length, and panics in builds that check for overflow, on a code
/// marked as FNC1 whose first segment is alphanumeric and holds a percent sign; as nothing in
/// the pixels tells such a code beforehand, it is not asked here. The reader also unwraps
/// comparisons of distances between the points of a contour, which would panic on a distance
/// that is no number; no picture is known to lead to one.
#[verifier::external_body]
fn decode_qr(width: u32, height: u32, pixels: Vec<u8>) -> (decoded: Option<String>)
    requires
        width <= 0x7fff,
        height <= 0x7fff,
    ensures
        exists|rounding: int|
            optional_text(decoded) == #[trigger] qr_text(width, height, pixels@, rounding),
        pixels@.len() < 4 * width * height ==> decoded is None,
{
    let pixels = image::RgbaImage::from_raw(width, height, pixels)?;
    let image = image::DynamicImage::ImageRgba8(pixels);
    let mut hints = rxing::DecodeHints::default();
    hints.PossibleFormats = Some(HashSet::from([rxing::BarcodeFormat::QR_CODE]));
    hints.TryHarder = Some(true);
    let source = rxing::BufferedImageLuminanceSource::new(image);
    let mut bitmap = rxing::BinaryBitmap::new(HybridBinarizer::new(source));
    let found = QrReader.decode_with_hints(&mut bitmap, &hints);
    Some(found.ok()?.getText().to_owned())
}

impl ScreenScan {
    /// Begins to scan so many displays.
    pub fn start(displays: usize) -> (scan: Result<ScreenScan, ScanError>)
        ensures
            displays == 0 ==> (scan matches Err(error) && error@ == ScanErrorView::NoDisplays),
            displays > 0 ==> (scan matches Ok(begun) && begun@ is None),
    {
        if displays == 0 {
            Err(ScanError::NoDisplays)
        } else {
            Ok(ScreenScan { rejected: None })
        }
    }

    /// Takes what the next display shows, and tells how that ends the scan, if it does. The fault
    /// of a QR code that yields no credentials is remembered.
    pub fn observe(&mut self, display: Display) -> (ended: Option<
        Result<Vec<NewCredential>, ScanError>,
    >)
        ensures
            reacts(old(self)@, display@, scan_end(ended), final(self)@),
    {
        match display {
            Display::Uncaptured(cause) => Some(Err(ScanError::NoCapture(cause))),
            Display::Blank => None,
            Display::Code(decoded) => match credentials_from_qr_text(decoded.as_str()) {
                Ok(credentials) => Some(Ok(credentials)),
                Err(error) => {
                    self.rejected = Some(error);
                    None
                },
            },
        }
    }

    /// Takes the picture of the next display, whose pixels, row by row, are red, green, blue and
    /// alpha. A QR code that is read from it ends the scan, or is remembered, like one that a
    /// display shows; where none is read, nothing has changed.
    pub fn observe_capture(&mut self, width: u32, height: u32, pixels: Vec<u8>) -> (step:
        CaptureStep)
        requires
            width <= 0x7fff,
            height <= 0x7fff,
        ensures
            exists|rounding: int|
                takes(
                    old(self)@,
                    #[trigger] qr_text(width, height, pixels@, rounding),
                    step,
                    final(self)@,
                ),
            pixels@.len() < 4 * width * height ==> step is Unread && final(self)@ == old(self)@,
    {
        match decode_qr(width, height, pixels) {
            Some(decoded) => match self.observe(Display::Code(decoded)) {
                Some(scanned) => CaptureStep::Ended(scanned),
                None => CaptureStep::Rejected,
            },
            None => CaptureStep::Unread,
        }
    }

    /// What the scan comes to when no display is left.
    pub fn conclude(self) -> (error: ScanError)
        ensures
            error@ == scan_conclusion(self@),
    {
        match self.rejected {
            Some(error) => ScanError::BadPayload(error),
            None => ScanError::NoQrCode,
        }
    }
}

/// What a scan comes to that has the given displays before it, after `rejected`.
pub open spec fn scanned(
    rejected: Option<CredentialErrorView>,
    displays: Seq<DisplayView>,
) -> Result<Seq<NewCredentialView>, ScanErrorView>
    decreases displays.len(),
{
    if displays.len() == 0 {
        Err(scan_conclusion(rejected))
    } else {
        match verdict(displays[0]) {
            Some(ended) => ended,
            None => scanned(remembered(rejected, displays[0]), displays.drop_first()),
        }
    }
}

/// The first display that ends a scan decides it, whatever the others show.
pub proof fn first_verdict_decides(
    rejected: Option<CredentialErrorView>,
    displays: Seq<DisplayView>,
    first: int,
)
    requires
        0 <= first < displays.len(),
        verdict(displays[first]) is Some,
        forall|i: int| 0 <= i < first ==> verdict(#[trigger] displays[i]) is None,
    ensures
        scanned(rejected, displays) == verdict(displays[first]).unwrap(),
    decreases displays.len(),
{
    if first > 0 {
        assert(verdict(displays[0]) is None);
        let rest = displays.drop_first();
        assert forall|i: int| 0 <= i < first - 1 implies verdict(#[trigger] rest[i]) is None by {
            assert(rest[i] == displays[i + 1]);
        }
        first_verdict_decides(remembered(rejected, displays[0]), rest, first - 1);
    }
}

/// Where no display ends it, a scan fails.
pub proof fn scan_without_verdict_fails(
    rejected: Option<CredentialErrorView>,
    displays: Seq<DisplayView>,
)
    requires
        forall|i: int| 0 <= i < displays.len() ==> verdict(#[trigger] displays[i]) is None,
    ensures
        scanned(rejected, displays) is Err,
    decreases displays.len(),
{
    if displays.len() > 0 {
        let rest = displays.drop_first();
        assert(verdict(displays[0]) is None);
        assert forall|i: int| 0 <= i < rest.len() implies verdict(#[trigger] rest[i]) is None by {
            assert(rest[i] == displays[i + 1]);
        }
        scan_without_verdict_fails(remembered(rejected, displays[0]), rest);
    }
}

/// Where no display shows a QR code, a scan fails with what it remembered.
pub proof fn blank_displays_fail_the_scan(
    rejected: Option<CredentialErrorView>,
    displays: Seq<DisplayView>,
)
    requires
        forall|i: int| 0 <= i < displays.len() ==> (#[trigger] displays[i]) is Blank,
    ensures
        scanned(rejected, displays) == Err::<Seq<NewCredentialView>, ScanErrorView>(
            scan_conclusion(rejected),
        ),
    decreases displays.len(),
{
    if displays.len() > 0 {
        let rest = displays.drop_first();
        assert(displays[0] is Blank);
        assert forall|i: int| 0 <= i < rest.len() implies (#[trigger] rest[i]) is Blank by {
            assert(rest[i] == displays[i + 1]);
        }
        blank_displays_fail_the_scan(rejected, rest);
    }
}

/// Where no display ends a scan, the fault of the last QR code is what it fails with.
pub proof fn last_useless_code_is_told(
    rejected: Option<CredentialErrorView>,
    displays: Seq<DisplayView>,
    last: int,
)
    requires
        forall|i: int| 0 <= i < displays.len() ==> verdict(#[trigger] displays[i]) is None,
        0 <= last < displays.len(),
        displays[last] is Code,
        forall|i: int| last < i < displays.len() ==> (#[trigger] displays[i]) is Blank,
    ensures
        scanned(rejected, displays) == Err::<Seq<NewCredentialView>, ScanErrorView>(
            ScanErrorView::BadPayload(qr_credentials(displays[last]->Code_0)->Err_0),
        ),
    decreases displays.len(),
{
    let rest = displays.drop_first();
    let next = remembered(rejected, displays[0]);
    assert(verdict(displays[0]) is None);
    assert forall|i: int| 0 <= i < rest.len() implies verdict(#[trigger] rest[i]) is None by {
        assert(rest[i] == displays[i + 1]);
    }
    assert forall|i: int| last - 1 < i < rest.len() && 0 <= i implies (
    #[trigger] rest[i]) is Blank by {
        assert(rest[i] == displays[i + 1]);
    }
    if last > 0 {
        assert(rest[last - 1] == displays[last]);
        last_useless_code_is_told(next, rest, last - 1);
    } else {
        blank_displays_fail_the_scan(next, rest);
    }
}

/// A text that begins with `otpauth://` or `otpauth-migration://` is taken for a URL, and any other
/// for the path of an image, as it is.
pub proof fn sources_are_urls_or_images(text: Seq<char>)
    ensures
        "otpauth://"@.is_prefix_of(text) || "otpauth-migration://"@.is_prefix_of(text)
            ==> named_source(text) == SourceView::Url(url_credentials(text)),
        !("otpauth://"@.is_prefix_of(text) || "otpauth-migration://"@.is_prefix_of(text))
            ==> named_source(text) == SourceView::Image(text),
{
}

/// The QR code of a display, without the white space at its ends, is the URL that decides: where
/// it yields credentials the scan ends with them and remembers nothing new; where it does not, the
/// scan goes on and remembers why, in place of what it remembered. A blank display changes
/// nothing, and one that cannot be captured ends the scan.
pub proof fn scans_react_to_displays(
    before: Option<CredentialErrorView>,
    display: DisplayView,
    ended: Option<Result<Seq<NewCredentialView>, ScanErrorView>>,
    after: Option<CredentialErrorView>,
)
    requires
        reacts(before, display, ended, after),
    ensures
        display is Blank ==> ended is None && after == before,
        display matches DisplayView::Uncaptured(cause) ==> ended == Some(
            Err::<Seq<NewCredentialView>, ScanErrorView>(ScanErrorView::NoCapture(cause)),
        ) && after == before,
        display matches DisplayView::Code(decoded) ==> match url_credentials(trimmed(decoded)) {
            Ok(credentials) => ended == Some(
                Ok::<Seq<NewCredentialView>, ScanErrorView>(credentials),
            ) && after == before,
            Err(error) => ended is None && after == Some(error),
        },
{
}

/// A picture counts as the QR code that is read from it, and as nothing where none is.
pub proof fn pictures_count_as_their_codes(
    before: Option<CredentialErrorView>,
    decoded: Option<Seq<char>>,
    step: CaptureStep,
    after: Option<CredentialErrorView>,
)
    requires
        takes(before, decoded, step, after),
    ensures
        decoded is None <==> step is Unread,
        decoded is None ==> after == before,
        decoded matches Some(text) ==> match url_credentials(trimmed(text)) {
            Ok(credentials) => after == before && (step matches CaptureStep::Ended(Ok(found))
                && views(found@) == credentials),
            Err(error) => step is Rejected && after == Some(error),
        },
{
}

/// A scan that no display has ended fails with the fault of the last QR code, or for want of one.
pub proof fn scans_fail_with_the_last_fault(rejected: Option<CredentialErrorView>)
    ensures
        rejected matches Some(error) ==> scan_conclusion(rejected) == ScanErrorView::BadPayload(
            error,
        ),
        rejected is None ==> scan_conclusion(rejected) == ScanErrorView::NoQrCode,
{
}

/// What the QR code of an image stands for is what its text does as a URL, without the white space
/// at its ends.
pub proof fn qr_codes_hold_urls(decoded: Seq<char>)
    ensures
        qr_credentials(decoded) == url_credentials(trimmed(decoded)),
{
}

/// The entries that can be used are all that were read, in their order.
pub proof fn usable_entries_are_those_read(entries: Seq<Option<DirectoryEntry>>)
    ensures
        usable(entries) == entries.filter(|entry: Option<DirectoryEntry>| entry is Some).map_values(
            |entry: Option<DirectoryEntry>| entry.unwrap()@,
        ),
    decreases entries.len(),
{
    reveal(Seq::filter);
    let read = |entry: Option<DirectoryEntry>| entry is Some;
    let seen = |entry: Option<DirectoryEntry>| entry.unwrap()@;
    if entries.len() > 0 {
        usable_entries_are_those_read(entries.drop_last());
        let earlier = entries.drop_last().filter(read);
        if read(entries.last()) {
            assert(entries.filter(read) == earlier.push(entries.last()));
            assert(earlier.push(entries.last()).map_values(seen) == earlier.map_values(seen).push(
                seen(entries.last()),
            ));
        } else {
            assert(entries.filter(read) == earlier);
        }
    } else {
        assert(entries.filter(read).map_values(seen) == Seq::<DirectoryEntryView>::empty());
    }
}

/// Why the screen yields no credentials is told in these words.
pub proof fn failed_scans_are_told(cause: Seq<char>, error: CredentialErrorView)
    ensures
        ScanErrorView::NoDisplayList(cause).text() == "Failed to enumerate displays: "@ + cause,
        ScanErrorView::NoDisplays.text() == "No displays found"@,
        ScanErrorView::NoCapture(cause).text()
            == "Failed to capture display; screen-recording permission may be required: "@ + cause,
        ScanErrorView::BadPayload(error).text()
            == "Screen QR code does not contain a valid OTP URL: "@ + error.text(),
        ScanErrorView::NoQrCode.text() == "No QR code found on any display"@,
{
}

/// What went wrong with a file or a directory is told in these words.
pub proof fn faults_of_files_name_the_file(path: String, cause: String)
    ensures
        FileError::UnknownHome(cause).text() == "Failed to determine home directory: "@ + cause@,
        FileError::NoHome.text() == "Home directory not found"@,
        (FileError::PathIsNoText { path }).text() == "Image path is not valid UTF-8: "@ + path@,
        (FileError::NoQrCode { path, cause }).text() == "Failed to decode QR code in image "@
            + path@ + ": "@ + cause@,
        (FileError::Unlistable { path, cause }).text() == "Failed to read directory "@ + path@
            + ": "@ + cause@,
{
}

/// A path whose first component is a tilde needs the home directory, and fails where there is none
/// or it cannot be found out; any other path stays as it is, whatever came of asking.
pub proof fn homes_matter_to_tildes_alone(
    path: &str,
    home: HomeLookup,
    expanded_path: Result<String, FileError>,
)
    requires
        call_ensures(expand_home, (path, home), expanded_path),
    ensures
        ({
            let leads_home = path@ == seq!['~'] || seq!['~', '/'].is_prefix_of(path@);
            &&& !leads_home ==> (expanded_path matches Ok(text) && text@ == path@)
            &&& leads_home ==> match home {
                HomeLookup::Found(home) => expanded_path matches Ok(text) && text@ == expanded(
                    path@,
                    home@,
                ),
                HomeLookup::Missing => expanded_path matches Err(error) && error is NoHome,
                HomeLookup::Failure(cause) => expanded_path matches Err(FileError::UnknownHome(told))
                    && told@ == cause@,
            }
        }),
{
    homes_hold_the_rest_of_the_path(path@, Seq::empty());
}

/// A listing yields all entries that were read, in their order; no such directory yields none, and
/// any other failure is told with the path and the reason.
pub proof fn listings_yield_what_was_read(
    listing: Listing,
    entries: Result<Vec<DirectoryEntry>, FileError>,
)
    requires
        call_ensures(read_listing, (listing,), entries),
    ensures
        listing matches Listing::Entries(listed) ==> (entries matches Ok(found) && views(found@)
            == listed@.filter(|entry: Option<DirectoryEntry>| entry is Some).map_values(
            |entry: Option<DirectoryEntry>| entry.unwrap()@,
        )),
        listing is NotFound ==> (entries matches Ok(found) && found@.len() == 0),
        listing matches Listing::Failure { path, cause } ==> (entries matches Err(
            FileError::Unlistable { path: told, cause: reason },
        ) && told == path && reason == cause),
{
    if let Listing::Entries(listed) = listing {
        usable_entries_are_those_read(listed@);
    }
}

/// A scan needs a display to begin, and remembers nothing then.
pub proof fn scans_need_a_display(displays: usize, scan: Result<ScreenScan, ScanError>)
    requires
        call_ensures(ScreenScan::start, (displays,), scan),
    ensures
        displays == 0 ==> (scan matches Err(error) && error is NoDisplays),
        displays > 0 ==> (scan matches Ok(begun) && begun.rejected is None),
{
}

/// A scan takes a display as it is: credentials of its QR code end the scan, whole and in their
/// order; a useless code is remembered; a blank display is passed over; and one that cannot be
/// captured makes the scan fail.
pub proof fn displays_decide_scans(
    scan: &mut ScreenScan,
    display: Display,
    ended: Option<Result<Vec<NewCredential>, ScanError>>,
)
    requires
        call_ensures(ScreenScan::observe, (scan, display), ended),
    ensures
        display is Blank ==> ended is None && final(scan)@ == old(scan)@,
        display matches Display::Uncaptured(cause) ==> (ended matches Some(
            Err(ScanError::NoCapture(told)),
        ) && told@ == cause@),
        display matches Display::Code(decoded) ==> match url_credentials(trimmed(decoded@)) {
            Ok(credentials) => final(scan)@ == old(scan)@ && (ended matches Some(Ok(found))
                && views(found@) == credentials),
            Err(error) => ended is None && (final(scan).rejected matches Some(kept) && kept@
                == error),
        },
{
}

/// A scan that no display has ended fails with the fault that it remembers, or for want of a QR
/// code.
pub proof fn scans_conclude_with_what_they_remember(scan: ScreenScan, error: ScanError)
    requires
        call_ensures(ScreenScan::conclude, (scan,), error),
    ensures
        scan.rejected matches Some(kept) ==> (error matches ScanError::BadPayload(told) && told@
            == kept@),
        scan.rejected is None ==> error is NoQrCode,
{
}

/// Why the screen yields no credentials is told in these words by the error itself.
pub proof fn scan_errors_tell_their_reasons(error: &ScanError, text: String)
    requires
        call_ensures(ScanError::message, (error,), text),
    ensures
        *error matches ScanError::NoDisplayList(cause) ==> text@
            == "Failed to enumerate displays: "@ + cause@,
        error is NoDisplays ==> text@ == "No displays found"@,
        *error matches ScanError::NoCapture(cause) ==> text@
            == "Failed to capture display; screen-recording permission may be required: "@ + cause@,
        *error matches ScanError::BadPayload(kept) ==> text@
            == "Screen QR code does not contain a valid OTP URL: "@ + kept@.text(),
        error is NoQrCode ==> text@ == "No QR code found on any display"@,
{
}

/// A named source is a URL with what it yields, or an image with its path.
pub proof fn named_sources_are_told_apart(source: &str, found: Source)
    requires
        call_ensures(credentials_from_source, (source,), found),
    ensures
        ({
            let is_url = "otpauth://"@.is_prefix_of(source@)
                || "otpauth-migration://"@.is_prefix_of(source@);
            &&& is_url ==> (found matches Source::Url(credentials) && outcome(credentials)
                == url_credentials(source@))
            &&& !is_url ==> (found matches Source::Image(path) && path@ == source@)
        }),
{
}

} // verus!
