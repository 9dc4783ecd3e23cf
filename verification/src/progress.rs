//! How a model download is going, in words.
//!
//! Percentages, remaining seconds and megabytes are computed from floating-point numbers
//! outside; what is shown of them, and when, is decided here.

use vstd::prelude::*;

use crate::error;
use crate::error::AppError;
use crate::text;

verus! {

/// How a download is going.
#[derive(Clone, Copy, Debug, PartialEq, Eq, Structural)]
pub struct ModelDownloadProgress {
    /// The completed part in percent, where the total size is known.
    pub percent: Option<u32>,
    pub downloaded_bytes: u64,
    /// The downloaded size in megabytes.
    pub downloaded_megabytes: u64,
    /// The remaining time in seconds, where it can be estimated.
    pub eta: Option<u64>,
}

/// How a remaining time is shown, such as `1:30` or `12s`.
pub open spec fn eta_text(seconds: u64) -> Seq<char> {
    if seconds >= 60 {
        text::decimal((seconds / 60) as nat) + ":"@ + two_digits(seconds % 60)
    } else {
        text::decimal(seconds as nat) + "s"@
    }
}

/// A number below a hundred with two digits.
pub open spec fn two_digits(n: u64) -> Seq<char> {
    seq![text::digit((n / 10) as nat), text::digit((n % 10) as nat)]
}

proof fn lemma_two_digits(n: u64)
    requires
        n < 100,
    ensures
        two_digits(n) == if n < 10 {
            seq!['0'] + text::decimal(n as nat)
        } else {
            text::decimal(n as nat)
        },
{
    if n < 10 {
        assert(two_digits(n) =~= seq!['0'] + text::decimal(n as nat));
    } else {
        assert(text::decimal((n / 10) as nat) == seq![text::digit((n / 10) as nat)]);
        assert(two_digits(n) =~= text::decimal(n as nat));
    }
}

/// The remaining time in words.
pub fn format_eta(seconds: u64) -> (eta: String)
    ensures
        eta@ == eta_text(seconds),
{
    let minutes: u64 = seconds / 60;
    let rest: u64 = seconds % 60;
    if minutes > 0 {
        let mut eta = text::write_decimal(minutes as u128);
        eta.append(":");
        proof {
            lemma_two_digits(rest);
            assert(text::digit(0) == '0');
        }
        if rest < 10 {
            eta.push('0');
        }
        eta.append(text::write_decimal(rest as u128).as_str());
        assert(eta@ =~= eta_text(seconds));
        eta
    } else {
        let mut eta = text::write_decimal(rest as u128);
        eta.append("s");
        eta
    }
}

/// No two remaining times are shown in the same way.
pub proof fn lemma_eta_text_is_exact(a: u64, b: u64)
    requires
        eta_text(a) == eta_text(b),
    ensures
        a == b,
{
    reveal_strlit(":");
    reveal_strlit("s");
    let x = eta_text(a);
    let y = eta_text(b);
    text::lemma_decimal_is_read_back(a);
    text::lemma_decimal_is_read_back(b);
    text::lemma_decimal_is_read_back(a / 60);
    text::lemma_decimal_is_read_back(b / 60);
    if a < 60 && b < 60 {
        assert(x.drop_last() =~= text::decimal(a as nat));
        assert(y.drop_last() =~= text::decimal(b as nat));
    } else if a >= 60 && b >= 60 {
        let n = x.len();
        assert(x[n - 1] == text::digit((a % 60 % 10) as nat));
        assert(y[n - 1] == text::digit((b % 60 % 10) as nat));
        assert(x[n - 2] == text::digit((a % 60 / 10) as nat));
        assert(y[n - 2] == text::digit((b % 60 / 10) as nat));
        assert(x.take(n - 3) =~= text::decimal((a / 60) as nat));
        assert(y.take(n - 3) =~= text::decimal((b / 60) as nat));
    } else if a >= 60 {
        assert(x.last() == text::digit((a % 60 % 10) as nat));
        assert(y.last() == 's');
    } else {
        assert(y.last() == text::digit((b % 60 % 10) as nat));
        assert(x.last() == 's');
    }
}

/// The status of a download.
pub open spec fn download_status(
    downloaded: u64,
    total: Option<u64>,
    percent: u64,
    seconds_left: u64,
    megabytes: Seq<char>,
) -> Seq<char> {
    match total {
        Some(t) if t > 0 => "Downloading model: "@ + text::decimal(percent as nat) + "% · ETA "@
            + if downloaded > 0 {
            eta_text(seconds_left)
        } else {
            "--"@
        },
        _ => "Downloading model: "@ + megabytes + " MB"@,
    }
}

/// The status of a download: where the total size is known, the percentage and the remaining
/// time, which can be estimated once something has arrived; else the size so far.
pub fn format_download_progress(
    downloaded: u64,
    total_bytes: Option<u64>,
    percent: u64,
    seconds_left: u64,
    megabytes: &str,
) -> (status: String)
    ensures
        status@ == download_status(downloaded, total_bytes, percent, seconds_left, megabytes@),
{
    let mut status = "Downloading model: ".to_string();
    let known = match total_bytes {
        Some(total) => total > 0,
        None => false,
    };
    if known {
        status.append(text::write_decimal(percent as u128).as_str());
        status.append("% · ETA ");
        if downloaded > 0 {
            status.append(format_eta(seconds_left).as_str());
        } else {
            status.append("--");
        }
    } else {
        status.append(megabytes);
        status.append(" MB");
    }
    status
}

/// What is known of a download.
pub open spec fn known_of(
    downloaded: u64,
    total: Option<u64>,
    percent: u32,
    seconds_left: u64,
    megabytes: u64,
) -> ModelDownloadProgress {
    ModelDownloadProgress {
        percent: match total {
            Some(t) if t > 0 => Some(percent),
            _ => None,
        },
        downloaded_bytes: downloaded,
        downloaded_megabytes: megabytes,
        eta: if total is Some && downloaded > 0 {
            Some(seconds_left)
        } else {
            None
        },
    }
}

/// What is known of a download: the percentage where the total size is known and not zero, the
/// remaining time where the total size is known and something has arrived.
pub fn emit_download_progress(
    downloaded: u64,
    total_bytes: Option<u64>,
    percent: u32,
    seconds_left: u64,
    megabytes: u64,
) -> (progress: ModelDownloadProgress)
    ensures
        progress == known_of(downloaded, total_bytes, percent, seconds_left, megabytes),
{
    let known = match total_bytes {
        Some(total) => total > 0,
        None => false,
    };
    ModelDownloadProgress {
        percent: if known {
            Some(percent)
        } else {
            None
        },
        downloaded_bytes: downloaded,
        downloaded_megabytes: megabytes,
        eta: if total_bytes.is_some() && downloaded > 0 {
            Some(seconds_left)
        } else {
            None
        },
    }
}

/// The second line of the download bubble.
pub open spec fn detail_text(progress: ModelDownloadProgress) -> Seq<char> {
    match (progress.percent, progress.eta) {
        (Some(percent), Some(eta)) => text::decimal(percent as nat) + " % · zbývá "@ + eta_text(
            eta,
        ),
        (Some(percent), None) => text::decimal(percent as nat) + " %"@,
        (None, _) => text::decimal(progress.downloaded_megabytes as nat) + " MB staženo"@,
    }
}

/// The second line of the download bubble, such as `45 % · zbývá 1:30`.
pub fn download_detail_text(progress: &ModelDownloadProgress) -> (detail: String)
    ensures
        detail@ == detail_text(*progress),
{
    match progress.percent {
        Some(percent) => {
            let mut detail = text::write_decimal(percent as u128);
            match progress.eta {
                Some(eta) => {
                    detail.append(" % · zbývá ");
                    detail.append(format_eta(eta).as_str());
                },
                None => {
                    detail.append(" %");
                },
            }
            detail
        },
        None => {
            let mut detail = text::write_decimal(progress.downloaded_megabytes as u128);
            detail.append(" MB staženo");
            detail
        },
    }
}

/// How long, in nanoseconds, the progress of a download goes unreported at least.
pub const REPORT_INTERVAL: u128 = 250_000_000;

/// What to do once a part of the download was read.
#[derive(Clone, Copy, Debug, PartialEq, Eq, Structural)]
pub enum ChunkStep {
    /// Write the part and read on.
    Write,
    /// Write the part, report the progress, and read on.
    WriteAndReport,
    /// Nothing was left: flush, and report the progress a last time.
    Finish,
}

/// A download that is under way.
#[derive(Clone, Copy, Debug, PartialEq, Eq, Structural)]
pub struct ModelDownload {
    pub downloaded: u64,
    pub total_bytes: Option<u64>,
}

/// What to do once a part of the given size was read, so long after the last report.
pub open spec fn chunk_step(bytes_read: usize, since_report: u128) -> ChunkStep {
    if bytes_read == 0 {
        ChunkStep::Finish
    } else if since_report >= REPORT_INTERVAL {
        ChunkStep::WriteAndReport
    } else {
        ChunkStep::Write
    }
}

/// The size that a server announces.
pub open spec fn announced_size(length: Option<Seq<char>>) -> Option<u64> {
    match length {
        Some(digits) => if text::is_number(digits) {
            Some(text::number_of(text::unsigned_part(digits)) as u64)
        } else {
            None
        },
        None => None,
    }
}

impl ModelDownload {
    /// Starts a download from what the server answered: the size that it announced, if any, or
    /// why the request failed.
    pub fn start(response: Result<Option<&str>, &str>) -> (download: Result<ModelDownload, AppError>)
        ensures
            match (response, download) {
                (Ok(length), Ok(d)) => {
                    &&& d.downloaded == 0
                    &&& d.total_bytes == announced_size(
                        match length {
                            Some(digits) => Some(digits@),
                            None => None,
                        },
                    )
                },
                (Err(why), Err(e)) => error::says(e, "Model download request failed: "@ + why@),
                _ => false,
            },
    {
        match response {
            Ok(length) => {
                let total_bytes = match length {
                    Some(digits) => text::parse_number(digits),
                    None => None,
                };
                Ok(ModelDownload { downloaded: 0, total_bytes })
            },
            Err(why) => Err(AppError::because("Model download request failed: ", why)),
        }
    }

    /// Takes in that `bytes_read` bytes were read, when progress was last reported
    /// `since_report` nanoseconds ago.
    pub fn chunk(&mut self, bytes_read: usize, since_report: u128) -> (step: ChunkStep)
        requires
            old(self).downloaded + bytes_read <= u64::MAX,
        ensures
            final(self).downloaded == old(self).downloaded + bytes_read,
            final(self).total_bytes == old(self).total_bytes,
            step == chunk_step(bytes_read, since_report),
    {
        if bytes_read == 0 {
            return ChunkStep::Finish;
        }
        self.downloaded = self.downloaded + bytes_read as u64;
        if since_report >= REPORT_INTERVAL {
            ChunkStep::WriteAndReport
        } else {
            ChunkStep::Write
        }
    }
}

/// A remaining time can be read off what is shown: below a minute, seconds; else minutes, a
/// colon, and two digits of seconds below sixty.
pub proof fn lemma_eta_text_tells_the_time(seconds: u64)
    ensures
        ({
            let shown = eta_text(seconds);
            let n = shown.len() as int;
            if seconds < 60 {
                &&& n > 1
                &&& shown[n - 1] == 's'
                &&& text::number_of(shown.take(n - 1)) == seconds
            } else {
                let minutes = text::number_of(shown.take(n - 3));
                let rest = text::number_of(shown.skip(n - 2));
                &&& n > 3
                &&& shown[n - 3] == ':'
                &&& minutes > 0
                &&& rest < 60
                &&& minutes * 60 + rest == seconds
            }
        }),
{
    reveal_strlit(":");
    reveal_strlit("s");
    let shown = eta_text(seconds);
    let n = shown.len() as int;
    text::lemma_decimal_is_read_back(seconds);
    text::lemma_decimal_is_read_back(seconds / 60);
    if seconds < 60 {
        assert(shown.take(n - 1) =~= text::decimal(seconds as nat));
        lemma_no_sign(seconds);
    } else {
        let rest: u64 = seconds % 60;
        assert(shown.take(n - 3) =~= text::decimal((seconds / 60) as nat));
        lemma_no_sign(seconds / 60);
        assert(shown.skip(n - 2) =~= two_digits(rest));
        lemma_two_digits(rest);
        lemma_no_sign(rest);
        text::lemma_decimal_is_read_back(rest);
        text::lemma_numbers_are_read_digit_by_digit(text::decimal(rest as nat), '0');
    }
}

proof fn lemma_no_sign(n: u64)
    ensures
        text::unsigned_part(text::decimal(n as nat)) == text::decimal(n as nat),
        text::decimal(n as nat).len() > 0,
{
    lemma_first_digit(n as nat);
}

proof fn lemma_first_digit(n: nat)
    ensures
        text::decimal(n).len() > 0,
        '0' <= text::decimal(n)[0] <= '9',
    decreases n,
{
    if n >= 10 {
        lemma_first_digit(n / 10);
        assert(text::decimal(n)[0] == text::decimal(n / 10)[0]);
    }
}

/// The status of a download and the bubble say the same: both start with the percentage exactly
/// where the size is known and not zero, and end with the remaining time exactly where something
/// has arrived of it. Else they tell the size so far, and no time.
pub proof fn lemma_download_is_told_alike(
    downloaded: u64,
    total: Option<u64>,
    percent: u32,
    seconds_left: u64,
    megabytes: u64,
    size: Seq<char>,
)
    ensures
        ({
            let known = known_of(downloaded, total, percent, seconds_left, megabytes);
            let status = download_status(downloaded, total, percent as u64, seconds_left, size);
            let told = status.skip("Downloading model: "@.len() as int);
            let detail = detail_text(known);
            let number = text::decimal(percent as nat);
            &&& "Downloading model: "@.is_prefix_of(status)
            &&& known.downloaded_bytes == downloaded
            &&& (total matches Some(t) && t > 0) ==> {
                &&& (number + seq!['%']).is_prefix_of(told)
                &&& (number + seq![' ', '%']).is_prefix_of(detail)
                &&& known.percent == Some(percent)
                &&& downloaded > 0 ==> eta_text(seconds_left).is_suffix_of(status) && eta_text(
                    seconds_left,
                ).is_suffix_of(detail) && known.eta == Some(seconds_left)
                &&& downloaded == 0 ==> seq!['-', '-'].is_suffix_of(status) && detail == number
                    + seq![' ', '%'] && known.eta is None
            }
            &&& (total is None || total == Some(0u64)) ==> {
                &&& known.percent is None
                &&& told == size + seq![' ', 'M', 'B']
                &&& text::decimal(megabytes as nat).is_prefix_of(detail)
                &&& seq![' ', 'M', 'B'].is_prefix_of(
                    detail.skip(text::decimal(megabytes as nat).len() as int),
                )
            }
        }),
{
    reveal_strlit("% · ETA ");
    reveal_strlit("--");
    reveal_strlit(" MB");
    reveal_strlit(" % · zbývá ");
    reveal_strlit(" %");
    reveal_strlit(" MB staženo");
    let known = known_of(downloaded, total, percent, seconds_left, megabytes);
    let status = download_status(downloaded, total, percent as u64, seconds_left, size);
    let start = "Downloading model: "@;
    let told = status.skip(start.len() as int);
    let detail = detail_text(known);
    let number = text::decimal(percent as nat);
    assert(status.take(start.len() as int) =~= start);
    if total matches Some(t) && t > 0 {
        let n = number.len() as int;
        assert(told.take(n + 1) =~= number + seq!['%']);
        assert(detail.take(n + 2) =~= number + seq![' ', '%']);
        if downloaded > 0 {
            let eta = eta_text(seconds_left);
            assert(status.skip(status.len() - eta.len()) =~= eta);
            assert(detail.skip(detail.len() - eta.len()) =~= eta);
        } else {
            assert(status.skip(status.len() - 2) =~= seq!['-', '-']);
            assert(detail =~= number + seq![' ', '%']);
        }
    } else {
        let m = text::decimal(megabytes as nat);
        assert(told =~= size + seq![' ', 'M', 'B']);
        assert(detail.take(m.len() as int) =~= m);
        assert(detail.skip(m.len() as int).take(3) =~= seq![' ', 'M', 'B']);
    }
}

/// A download goes on as long as something arrives and ends when nothing does. It is reported no
/// more often than four times a second, and at least when a quarter of a second has passed.
pub proof fn lemma_download_is_reported_now_and_then(bytes_read: usize, since_report: u128)
    ensures
        chunk_step(bytes_read, since_report) == ChunkStep::Finish <==> bytes_read == 0,
        chunk_step(bytes_read, since_report) == ChunkStep::WriteAndReport <==> bytes_read > 0
            && since_report * 4 >= 1_000_000_000,
{
}

/// A size that a server announces is taken as it is, with or without a plus sign, and anything
/// that is no number counts as no size.
pub proof fn lemma_announced_size_is_taken(size: u64, other: Seq<char>)
    ensures
        announced_size(Some(text::decimal(size as nat))) == Some(size),
        announced_size(Some(seq!['+'] + text::decimal(size as nat))) == Some(size),
        announced_size(None) is None,
        (exists|i: int|
            0 <= i < other.len() && !('0' <= #[trigger] other[i] <= '9') && (i > 0 || other[i]
                != '+')) ==> announced_size(Some(other)) is None,
        other.len() == 0 ==> announced_size(Some(other)) is None,
{
    text::lemma_decimal_is_read_back(size);
    lemma_no_sign(size);
    let signed = seq!['+'] + text::decimal(size as nat);
    assert(signed.drop_first() =~= text::decimal(size as nat));
    assert(signed[0] == '+');
    if exists|i: int|
        0 <= i < other.len() && !('0' <= #[trigger] other[i] <= '9') && (i > 0 || other[i] != '+') {
        let i = choose|i: int|
            0 <= i < other.len() && !('0' <= #[trigger] other[i] <= '9') && (i > 0 || other[i]
                != '+');
        let digits = text::unsigned_part(other);
        let k = i - (other.len() - digits.len());
        assert(digits[k] == other[i]);
    }
}

} // verus!
