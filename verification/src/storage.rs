//! Clipboard history entries: their kinds and stored encodings, how an
//! entry reads in the list, which copies are kept, how the list is
//! searched, and when old entries must go.
//!
//! The database, the media files and the Windows data protection calls
//! are the application's part; they hand the values read and written to
//! the functions here.

use vstd::prelude::*;
use sha2::{Digest, Sha256};
use crate::config::HistoryConfig;
use crate::text::{
    chars_of, string_from_chars, trimmed, trim_chars, lowercase, to_lowercase, contains_text,
    contains_str, spaced, replace_chars_with_space, decimal, decimal_string, lower_hex, hex,
    listed_ignoring_ascii_case, is_listed,
};

verus! {

/// What a history entry holds.
#[derive(Debug, Clone, Copy, PartialEq, Eq, Structural)]
pub enum ClipKind {
    Text,
    Image,
}

/// The name under which a kind is stored.
pub open spec fn kind_name(k: ClipKind) -> Seq<char> {
    match k {
        ClipKind::Text => "text"@,
        ClipKind::Image => "image"@,
    }
}

/// The kind stored under a name, if any.
pub open spec fn kind_named(s: Seq<char>) -> Option<ClipKind> {
    if s == kind_name(ClipKind::Text) {
        Some(ClipKind::Text)
    } else if s == kind_name(ClipKind::Image) {
        Some(ClipKind::Image)
    } else {
        None
    }
}

impl ClipKind {
    /// The name under which the kind is stored.
    pub fn as_str(self) -> (r: &'static str)
        ensures
            r@ == kind_name(self),
    {
        match self {
            ClipKind::Text => "text",
            ClipKind::Image => "image",
        }
    }

    /// The kind stored under `value`, if any.
    pub fn parse(value: &str) -> (r: Option<ClipKind>)
        ensures
            r == kind_named(value@),
    {
        let v = String::from_str(value);
        if v == String::from_str("text") {
            Some(ClipKind::Text)
        } else if v == String::from_str("image") {
            Some(ClipKind::Image)
        } else {
            None
        }
    }
}

/// How an entry's content is stored: as is, or protected for the current
/// Windows user.
#[derive(Debug, Clone, Copy, PartialEq, Eq, Structural)]
pub enum ContentEncoding {
    Plain,
    Dpapi,
}

/// The name under which an encoding is stored.
pub open spec fn encoding_name(e: ContentEncoding) -> Seq<char> {
    match e {
        ContentEncoding::Plain => "plain"@,
        ContentEncoding::Dpapi => "dpapi"@,
    }
}

/// The encoding stored under a name, if any.
pub open spec fn encoding_named(s: Seq<char>) -> Option<ContentEncoding> {
    if s == encoding_name(ContentEncoding::Plain) {
        Some(ContentEncoding::Plain)
    } else if s == encoding_name(ContentEncoding::Dpapi) {
        Some(ContentEncoding::Dpapi)
    } else {
        None
    }
}

/// Why a history operation was refused.
#[derive(Debug, Clone, PartialEq, Eq)]
pub enum StorageError {
    /// The text is longer than the configured byte limit, given.
    TextTooLarge(usize),
    /// The image is larger than the configured MiB limit, given.
    ImageTooLarge(u64),
    /// A stored encoding name that no encoding has.
    UnknownEncoding(String),
}

/// The message shown for each storage error.
pub open spec fn storage_error_message(e: StorageError) -> Seq<char> {
    match e {
        StorageError::TextTooLarge(n) => "文本超过 "@ + decimal(n as nat) + " 字节，已跳过"@,
        StorageError::ImageTooLarge(n) => "图片超过 "@ + decimal(n as nat) + " MiB，已跳过"@,
        StorageError::UnknownEncoding(v) => "未知剪贴板内容编码："@ + v@,
    }
}

impl StorageError {
    /// The message shown for this error.
    pub fn message(&self) -> (r: String)
        ensures
            r@ == storage_error_message(*self),
    {
        match self {
            StorageError::TextTooLarge(n) => {
                let mut m = String::from_str("文本超过 ");
                m.append(decimal_string(*n as u64).as_str());
                m.append(" 字节，已跳过");
                m
            },
            StorageError::ImageTooLarge(n) => {
                let mut m = String::from_str("图片超过 ");
                m.append(decimal_string(*n).as_str());
                m.append(" MiB，已跳过");
                m
            },
            StorageError::UnknownEncoding(v) => {
                let mut m = String::from_str("未知剪贴板内容编码：");
                m.append(v.as_str());
                m
            },
        }
    }
}

impl ContentEncoding {
    /// The name under which the encoding is stored.
    pub fn as_str(self) -> (r: &'static str)
        ensures
            r@ == encoding_name(self),
    {
        match self {
            ContentEncoding::Plain => "plain",
            ContentEncoding::Dpapi => "dpapi",
        }
    }

    /// The encoding stored under `value`; any other name is refused.
    pub fn parse(value: &str) -> (r: Result<ContentEncoding, StorageError>)
        ensures
            match encoding_named(value@) {
                Some(e) => r == Ok::<ContentEncoding, StorageError>(e),
                None => r matches Err(StorageError::UnknownEncoding(v)) && v@ == value@,
            },
    {
        let v = String::from_str(value);
        if v == String::from_str("plain") {
            Ok(ContentEncoding::Plain)
        } else if v == String::from_str("dpapi") {
            Ok(ContentEncoding::Dpapi)
        } else {
            Err(StorageError::UnknownEncoding(v))
        }
    }
}

/// Reading back the stored name of a kind or an encoding gives it back.
pub proof fn lemma_stored_names_round_trip(k: ClipKind, e: ContentEncoding)
    ensures
        kind_named(kind_name(k)) == Some(k),
        encoding_named(encoding_name(e)) == Some(e),
{
    reveal_strlit("text");
    reveal_strlit("image");
    reveal_strlit("plain");
    reveal_strlit("dpapi");
    assert(kind_name(ClipKind::Text).len() != kind_name(ClipKind::Image).len());
    assert(encoding_name(ContentEncoding::Plain)[0] != encoding_name(ContentEncoding::Dpapi)[0]);
}

/// Content captured from the clipboard.
#[derive(Debug, Clone)]
pub enum ClipPayload {
    Text(String),
    ImagePng(Vec<u8>),
}

/// A history entry as the list shows it.
#[derive(Debug, Clone)]
pub struct ClipItem {
    pub id: i64,
    pub kind: ClipKind,
    pub text: Option<String>,
    pub thumbnail_png: Option<Vec<u8>>,
    pub source_exe: String,
    pub width: Option<u32>,
    pub height: Option<u32>,
    pub byte_size: u64,
    pub last_used_at: i64,
    pub pinned: bool,
}

/// Totals of the stored history.
#[derive(Debug, Clone, Copy, PartialEq, Eq, Structural)]
pub struct StorageStats {
    pub item_count: u64,
    pub pinned_count: u64,
    pub content_bytes: u64,
    pub disk_bytes: u64,
}

impl Default for StorageStats {
    fn default() -> (r: Self)
        ensures
            r.item_count == 0 && r.pinned_count == 0 && r.content_bytes == 0 && r.disk_bytes == 0,
    {
        StorageStats { item_count: 0, pinned_count: 0, content_bytes: 0, disk_bytes: 0 }
    }
}

/// A count read from the database, negative values read as zero.
pub open spec fn nonnegative(v: i64) -> u64 {
    if v < 0 {
        0
    } else {
        v as u64
    }
}

/// The sum of the sizes, stopping at `u64::MAX` as saturating addition does.
pub open spec fn saturating_total(sizes: Seq<u64>) -> u64
    decreases sizes.len(),
{
    if sizes.len() == 0 {
        0
    } else {
        let before = saturating_total(sizes.drop_last());
        if before + sizes.last() > u64::MAX {
            u64::MAX
        } else {
            (before + sizes.last()) as u64
        }
    }
}

/// The totals of the history from the database's entry and pinned entry
/// counts and content bytes, and the sizes of the files on disk.
pub fn stats_from(count: i64, pinned_count: i64, content_bytes: i64, file_sizes: &Vec<u64>) -> (r: StorageStats)
    ensures
        r.item_count == nonnegative(count),
        r.pinned_count == nonnegative(pinned_count),
        r.content_bytes == nonnegative(content_bytes),
        r.disk_bytes == saturating_total(file_sizes@),
{
    let mut disk: u64 = 0;
    let mut i: usize = 0;
    while i < file_sizes.len()
        invariant
            0 <= i <= file_sizes@.len(),
            disk == saturating_total(file_sizes@.take(i as int)),
        decreases file_sizes.len() - i,
    {
        assert(file_sizes@.take(i + 1).drop_last() =~= file_sizes@.take(i as int));
        disk = disk.saturating_add(file_sizes[i]);
        i = i + 1;
    }
    assert(file_sizes@.take(file_sizes@.len() as int) =~= file_sizes@);
    StorageStats {
        item_count: if count < 0 {
            0
        } else {
            count as u64
        },
        pinned_count: if pinned_count < 0 {
            0
        } else {
            pinned_count as u64
        },
        content_bytes: if content_bytes < 0 {
            0
        } else {
            content_bytes as u64
        },
        disk_bytes: disk,
    }
}

/// The bytes the history takes: those of the files on disk where any are
/// counted, else those of the stored content.
pub open spec fn used_bytes(stats: StorageStats) -> u64 {
    if stats.disk_bytes > 0 {
        stats.disk_bytes
    } else {
        stats.content_bytes
    }
}

/// The usage line of the history: the entry count, the pinned count where
/// any entry is pinned, and the bytes used, in KiB rounded up.
pub open spec fn usage_of(stats: StorageStats) -> Seq<char> {
    decimal(stats.item_count as nat) + " 条 · "@ + (if stats.pinned_count > 0 {
        decimal(stats.pinned_count as nat) + " 置顶 · "@
    } else {
        Seq::empty()
    }) + decimal(kib_rounded_up(used_bytes(stats))) + " KiB"@
}

/// The size in KiB, rounded up.
fn kib_of(bytes: u64) -> (r: u64)
    ensures
        r == kib_rounded_up(bytes),
{
    let kib: u64 = bytes / 1024 + if bytes % 1024 != 0 {
        1u64
    } else {
        0u64
    };
    assert(kib == kib_rounded_up(bytes)) by (nonlinear_arith)
        requires
            kib == bytes / 1024 + if bytes % 1024 != 0 { 1int } else { 0int },
    {
    }
    kib
}

impl StorageStats {
    /// The usage line of the history, as the popup and the settings show it.
    pub fn usage_text(&self) -> (r: String)
        ensures
            r@ == usage_of(*self),
    {
        let bytes = if self.disk_bytes > 0 {
            self.disk_bytes
        } else {
            self.content_bytes
        };
        let mut line = decimal_string(self.item_count);
        line.append(" 条 · ");
        if self.pinned_count > 0 {
            line.append(decimal_string(self.pinned_count).as_str());
            line.append(" 置顶 · ");
        }
        line.append(decimal_string(kib_of(bytes)).as_str());
        line.append(" KiB");
        line
    }
}

/// The line breaks and tabs that the list shows as spaces.
pub open spec fn layout_chars() -> Seq<char> {
    seq!['\r', '\n', '\t']
}

/// The text of an optional string, empty when absent.
pub open spec fn text_or_empty(t: Option<String>) -> Seq<char> {
    match t {
        Some(s) => s@,
        None => Seq::empty(),
    }
}

/// How an entry reads in the list: a text with its line breaks and tabs as
/// spaces, or an image's size.
pub open spec fn display_of(item: ClipItem) -> Seq<char> {
    match item.kind {
        ClipKind::Text => spaced(text_or_empty(item.text), layout_chars()),
        ClipKind::Image => "图片  "@ + decimal(
            (match item.width {
                Some(w) => w,
                None => 0u32,
            }) as nat,
        ) + " × "@ + decimal(
            (match item.height {
                Some(h) => h,
                None => 0u32,
            }) as nat,
        ),
    }
}

impl ClipItem {
    /// How the entry reads in the list: a text with its line breaks and
    /// tabs as spaces, or `图片  W × H` for an image.
    pub fn display_text(&self) -> (r: String)
        ensures
            r@ == display_of(*self),
    {
        match self.kind {
            ClipKind::Text => {
                let targets = vec!['\r', '\n', '\t'];
                assert(targets@ =~= layout_chars());
                match &self.text {
                    Some(t) => replace_chars_with_space(t.as_str(), &targets),
                    None => {
                        proof {
                            reveal_strlit("");
                        }
                        replace_chars_with_space("", &targets)
                    },
                }
            },
            ClipKind::Image => {
                let w = match self.width {
                    Some(w) => w,
                    None => 0,
                };
                let h = match self.height {
                    Some(h) => h,
                    None => 0,
                };
                let mut m = String::from_str("图片  ");
                m.append(decimal_string(w as u64).as_str());
                m.append(" × ");
                m.append(decimal_string(h as u64).as_str());
                m
            },
        }
    }
}

/// How long ago something was used, from the milliseconds since: just now
/// under a minute, then whole minutes, whole hours and whole days.
pub open spec fn relative_time_of(elapsed_ms: int) -> Seq<char> {
    let seconds = if elapsed_ms < 0 {
        0
    } else {
        elapsed_ms / 1000
    };
    if seconds < 60 {
        "刚刚"@
    } else if seconds < 3600 {
        decimal((seconds / 60) as nat) + " 分钟前"@
    } else if seconds < 86400 {
        decimal((seconds / 3600) as nat) + " 小时前"@
    } else {
        decimal((seconds / 86400) as nat) + " 天前"@
    }
}

/// How long ago something was used, from the milliseconds since.
pub fn relative_time_text(elapsed_ms: i64) -> (r: String)
    ensures
        r@ == relative_time_of(elapsed_ms as int),
{
    let seconds: i64 = if elapsed_ms < 0 {
        0
    } else {
        elapsed_ms / 1000
    };
    if seconds < 60 {
        String::from_str("刚刚")
    } else if seconds < 3600 {
        let mut text = decimal_string((seconds / 60) as u64);
        text.append(" 分钟前");
        text
    } else if seconds < 86400 {
        let mut text = decimal_string((seconds / 3600) as u64);
        text.append(" 小时前");
        text
    } else {
        let mut text = decimal_string((seconds / 86400) as u64);
        text.append(" 天前");
        text
    }
}

/// The size of an entry in KiB, rounded up.
pub open spec fn kib_rounded_up(bytes: u64) -> nat {
    ((bytes as int + 1023) / 1024) as nat
}

/// The second line of an entry in the list: the program it came from
/// (`未知来源` when none is known), how long ago it was used, and its size
/// in KiB rounded up.
pub open spec fn details_of(item: ClipItem, relative_time: Seq<char>) -> Seq<char> {
    (if item.source_exe@.len() == 0 {
        "未知来源"@
    } else {
        item.source_exe@
    }) + " · "@ + relative_time + " · "@ + decimal(kib_rounded_up(item.byte_size)) + " KiB"@
}

impl ClipItem {
    /// The second line of the entry in the list, given how long ago it was
    /// used.
    pub fn details(&self, relative_time: &str) -> (r: String)
        ensures
            r@ == details_of(*self, relative_time@),
    {
        let kib = kib_of(self.byte_size);
        let mut line = if self.source_exe.as_str().unicode_len() == 0 {
            String::from_str("未知来源")
        } else {
            self.source_exe.clone()
        };
        line.append(" · ");
        line.append(relative_time);
        line.append(" · ");
        line.append(decimal_string(kib).as_str());
        line.append(" KiB");
        line
    }
}

/// What the store step does with captured content: `Ok(false)` to skip it,
/// `Ok(true)` to keep it, or the reason it is refused.
pub open spec fn store_outcome(history: HistoryConfig, payload: ClipPayload, source_exe: Seq<char>) -> Result<bool, StorageError> {
    if !history.capture {
        Ok(false)
    } else if listed_ignoring_ascii_case(history.excluded_processes@, source_exe) {
        Ok(false)
    } else {
        match payload {
            ClipPayload::Text(t) => {
                if t@.len() == 0 {
                    Ok(false)
                } else if vstd::utf8::encode_utf8(t@).len() > history.max_text_bytes {
                    Err(StorageError::TextTooLarge(history.max_text_bytes))
                } else {
                    Ok(true)
                }
            },
            ClipPayload::ImagePng(png) => {
                if png@.len() > history.max_image_stored_mib * 1_048_576 {
                    Err(StorageError::ImageTooLarge(history.max_image_stored_mib))
                } else {
                    Ok(true)
                }
            },
        }
    }
}

/// Decides whether captured content is kept: nothing is kept while capture
/// is off or when the source program is excluded (ASCII case ignored), an
/// empty text is skipped, and content over the configured size is refused.
pub fn store_decision(history: &HistoryConfig, payload: &ClipPayload, source_exe: &str) -> (r: Result<bool, StorageError>)
    requires
        history.max_image_stored_mib * 1_048_576 <= u64::MAX,
    ensures
        r == store_outcome(*history, *payload, source_exe@),
{
    if !history.capture {
        return Ok(false);
    }
    if is_listed(&history.excluded_processes, source_exe) {
        return Ok(false);
    }
    match payload {
        ClipPayload::Text(text) => {
            if text.as_str().is_empty() {
                return Ok(false);
            }
            if text.as_str().as_bytes().len() > history.max_text_bytes {
                return Err(StorageError::TextTooLarge(history.max_text_bytes));
            }
            Ok(true)
        },
        ClipPayload::ImagePng(png) => {
            if png.len() as u64 > history.max_image_stored_mib * 1024 * 1024 {
                return Err(StorageError::ImageTooLarge(history.max_image_stored_mib));
            }
            Ok(true)
        },
    }
}

/// Whether the clipboard's owner asked that its content stay out of
/// histories: it placed the `ExcludeClipboardContentFromMonitorProcessing`
/// format, or a `CanIncludeInClipboardHistory` value of zero.
pub fn requests_exclusion(exclude_marker: bool, can_include_value: Option<u32>) -> (r: bool)
    ensures
        r == (exclude_marker || can_include_value == Some(0u32)),
{
    if exclude_marker {
        return true;
    }
    match can_include_value {
        Some(value) => value == 0,
        None => false,
    }
}

/// Whether the stored history exceeds its limits, so that the least
/// recently used entry must go: more than `max_items` entries, or more
/// than `max_disk_mib` MiB of content (a negative sum counting as zero).
pub open spec fn over_limits(count: i64, bytes: i64, max_items: usize, max_disk_mib: u64) -> bool {
    count < 0 || count > max_items || (if bytes < 0 {
        0
    } else {
        bytes as int
    }) > max_disk_mib * 1_048_576
}

/// Whether the stored history exceeds its limits, given its entry count
/// and content bytes.
pub fn needs_eviction(count: i64, bytes: i64, max_items: usize, max_disk_mib: u64) -> (r: bool)
    requires
        max_disk_mib * 1_048_576 <= u64::MAX,
    ensures
        r == over_limits(count, bytes, max_items, max_disk_mib),
{
    let max_bytes = max_disk_mib * 1024 * 1024;
    let used: u64 = if bytes < 0 {
        0
    } else {
        bytes as u64
    };
    count < 0 || count as u64 > max_items as u64 || used > max_bytes
}

/// The SHA-256 digest of the given bytes.
pub uninterp spec fn sha256(data: Seq<u8>) -> Seq<u8>;

/// Calls `Sha256::digest` of the `sha2` crate. Claimed: the result is
/// `sha256` of the input, a function of the input alone, and has the
/// digest's 32 bytes.
#[verifier::external_body]
fn sha256_digest(data: &[u8]) -> (r: Vec<u8>)
    ensures
        r@ == sha256(data@),
        r@.len() == 32,
{
    Sha256::digest(data).to_vec()
}

/// The key under which content is stored once: its SHA-256 digest.
pub fn content_hash(data: &[u8]) -> (r: Vec<u8>)
    ensures
        r@ == sha256(data@),
        r@.len() == 32,
{
    sha256_digest(data)
}

/// The media file name of stored image content: the hexadecimal digest,
/// with `.bin` for protected content and `.png` otherwise.
pub open spec fn media_file_name(hash: Seq<u8>, encrypt: bool) -> Seq<char> {
    lower_hex(hash) + (if encrypt {
        ".bin"@
    } else {
        ".png"@
    })
}

/// The media file name for content with the given digest.
pub fn media_name(hash: &[u8], encrypt: bool) -> (r: String)
    ensures
        r@ == media_file_name(hash@, encrypt),
{
    let mut name = hex(hash);
    if encrypt {
        name.append(".bin");
    } else {
        name.append(".png");
    }
    name
}

/// The search key of a query: trimmed and lowercased.
pub open spec fn search_key_of(query: Seq<char>) -> Seq<char> {
    lowercase(trimmed(query))
}

/// The search key of a query: trimmed and lowercased.
pub fn search_key(query: &str) -> (r: String)
    ensures
        r@ == search_key_of(query@),
{
    let chars = chars_of(query);
    let t = string_from_chars(&trim_chars(&chars));
    to_lowercase(t.as_str())
}

/// An entry is listed for a search key when the key is empty or occurs in
/// the lowercased display text or source program name.
pub open spec fn listed_for(item: ClipItem, key: Seq<char>) -> bool {
    key.len() == 0 || contains_text(lowercase(display_of(item)), key) || contains_text(
        lowercase(item.source_exe@),
        key,
    )
}

/// Whether the entry is listed for the search key.
pub fn matches_search(item: &ClipItem, key: &str) -> (r: bool)
    ensures
        r == listed_for(*item, key@),
{
    if key.is_empty() {
        return true;
    }
    let shown = to_lowercase(item.display_text().as_str());
    if contains_str(shown.as_str(), key) {
        return true;
    }
    let source = to_lowercase(item.source_exe.as_str());
    contains_str(source.as_str(), key)
}

/// The entries listed for a query, in their order.
pub fn filter_items(items: Vec<ClipItem>, query: &str) -> (r: Vec<ClipItem>)
    ensures
        r@ == items@.filter(|item: ClipItem| listed_for(item, search_key_of(query@))),
{
    let key = search_key(query);
    let mut r: Vec<ClipItem> = Vec::new();
    let ghost keep = |item: ClipItem| listed_for(item, search_key_of(query@));
    let ghost all = items@;
    for item in it: items.into_iter()
        invariant
            it.seq() == all,
            keep == (|x: ClipItem| listed_for(x, search_key_of(query@))),
            key@ == search_key_of(query@),
            r@ == all.take(it.index() as int).filter(keep),
    {
        proof {
            reveal(Seq::filter);
            assert(all.take(it.index() + 1).drop_last() =~= all.take(it.index() as int));
            assert(item == all[it.index() as int]);
            assert(all.take(it.index() + 1).last() == item);
        }
        let ghost i = it.index() as int;
        let ghost before = r@;
        let listed = matches_search(&item, key.as_str());
        proof {
            assert(keep(item) == listed);
            let t = all.take(i + 1);
            assert(t.len() > 0);
            assert(t.filter(keep) == (if keep(t.last()) {
                t.drop_last().filter(keep).push(t.last())
            } else {
                t.drop_last().filter(keep)
            }));
        }
        if listed {
            r.push(item);
        }
        assert(r@ == all.take(i + 1).filter(keep));
    }
    assert(all.take(all.len() as int) =~= all);
    r
}

/* Order and eviction of entries */

/// An entry as its order and eviction see it: its id, when it was last
/// used, and whether it is pinned.
pub type EntryKey = (i64, i64, bool);

/// `a` is listed before `b`: pinned entries first, then the most recently
/// used, then the newest id.
pub open spec fn listed_before(a: EntryKey, b: EntryKey) -> bool {
    (a.2 && !b.2) || (a.2 == b.2 && (a.1 > b.1 || (a.1 == b.1 && a.0 > b.0)))
}

/// `order` lists each index of `n` rows exactly once.
pub open spec fn is_permutation(order: Seq<usize>, n: nat) -> bool {
    &&& order.len() == n
    &&& forall|i: int| 0 <= i < order.len() ==> order[i] < n
    &&& forall|i: int, j: int| 0 <= i < j < order.len() ==> order[i] != order[j]
}

/// The rows taken in `order` come in listing order.
pub open spec fn in_listing_order(rows: Seq<EntryKey>, order: Seq<usize>) -> bool {
    forall|i: int, j: int|
        0 <= i < j < order.len() ==> !listed_before(rows[order[j] as int], rows[order[i] as int])
}

/// The order in which the history lists its entries: a permutation of the
/// rows with every pinned row before every unpinned one, and within each,
/// the most recently used first, then the newest id.
pub fn list_order(rows: &Vec<EntryKey>) -> (r: Vec<usize>)
    ensures
        is_permutation(r@, rows@.len()),
        in_listing_order(rows@, r@),
        forall|i: int, j: int|
            0 <= i < j < r@.len() && #[trigger] rows@[r@[j] as int].2 ==> #[trigger] rows@[r@[i] as int].2,
        forall|i: int, j: int|
            0 <= i < j < r@.len() && #[trigger] rows@[r@[i] as int].2 == #[trigger] rows@[r@[j] as int].2
                ==> rows@[r@[i] as int].1 >= rows@[r@[j] as int].1,
        forall|i: int, j: int|
            0 <= i < j < r@.len() && #[trigger] rows@[r@[i] as int].2 == #[trigger] rows@[r@[j] as int].2
                && rows@[r@[i] as int].1 == rows@[r@[j] as int].1 ==> rows@[r@[i] as int].0 >= rows@[r@[j] as int].0,
{
    let n = rows.len();
    let mut used: Vec<bool> = Vec::new();
    let mut k: usize = 0;
    while k < n
        invariant
            n == rows@.len(),
            k <= n,
            used@.len() == k,
            forall|i: int| 0 <= i < k ==> !used@[i],
        decreases n - k,
    {
        used.push(false);
        k = k + 1;
    }
    let mut order: Vec<usize> = Vec::new();
    while order.len() < n
        invariant
            n == rows@.len(),
            used@.len() == n,
            order@.len() <= n,
            forall|i: int| 0 <= i < order@.len() ==> order@[i] < n && used@[order@[i] as int],
            forall|i: int, j: int| 0 <= i < j < order@.len() ==> order@[i] != order@[j],
            forall|m: int| 0 <= m < n && used@[m] ==> exists|i: int| 0 <= i < order@.len() && order@[i] == m,
            in_listing_order(rows@, order@),
            forall|i: int, m: int|
                0 <= i < order@.len() && 0 <= m < n && !used@[m] ==> !listed_before(
                    rows@[m],
                    rows@[order@[i] as int],
                ),
        decreases n - order@.len(),
    {
        proof {
            lemma_unused_exists(used@, order@, n as int);
        }
        let mut best: usize = n;
        let mut m: usize = 0;
        while m < n
            invariant
                n == rows@.len(),
                used@.len() == n,
                m <= n,
                best == n || (best < m && !used@[best as int]),
                best == n ==> forall|j: int| 0 <= j < m ==> used@[j],
                best < n ==> forall|j: int|
                    0 <= j < m && !used@[j] ==> !listed_before(rows@[j], rows@[best as int]),
            decreases n - m,
        {
            if !used[m] {
                if best == n || listed_before_exec(&rows[m], &rows[best]) {
                    best = m;
                }
            }
            m = m + 1;
        }
        proof {
            if best == n {
                let w = choose|w: int| 0 <= w < n && !used@[w];
                assert(used@[w]);
            }
        }
        let ghost before_order = order@;
        let ghost before_used = used@;
        used.set(best, true);
        order.push(best);
        proof {
            assert forall|i: int, j: int| 0 <= i < j < order@.len() implies order@[i] != order@[j] by {
                if j == order@.len() - 1 {
                    assert(before_used[order@[i] as int]);
                }
            }
            assert forall|q: int| 0 <= q < n && used@[q] implies exists|i: int|
                0 <= i < order@.len() && order@[i] == q by {
                if q == best as int {
                    assert(order@[order@.len() - 1] == q);
                } else {
                    assert(before_used[q]);
                    let i = choose|i: int| 0 <= i < before_order.len() && before_order[i] == q;
                    assert(order@[i] == q);
                }
            }
            assert forall|i: int, j: int| 0 <= i < j < order@.len() implies !listed_before(
                rows@[order@[j] as int],
                rows@[order@[i] as int],
            ) by {
                if j == order@.len() - 1 {
                    assert(!before_used[best as int]);
                }
            }
            assert forall|i: int, q: int| 0 <= i < order@.len() && 0 <= q < n && !used@[q] implies !listed_before(
                rows@[q],
                rows@[order@[i] as int],
            ) by {
                assert(!before_used[q]);
            }
        }
    }
    proof {
        lemma_listing_order_fields(rows@, order@);
    }
    order
}

/// In listing order, every pinned entry comes before every unpinned one,
/// and among entries equally pinned the later last use comes first, then
/// the newer id.
pub proof fn lemma_listing_order_fields(rows: Seq<EntryKey>, order: Seq<usize>)
    requires
        is_permutation(order, rows.len()),
        in_listing_order(rows, order),
    ensures
        forall|i: int, j: int|
            0 <= i < j < order.len() && #[trigger] rows[order[j] as int].2 ==> #[trigger] rows[order[i] as int].2,
        forall|i: int, j: int|
            0 <= i < j < order.len() && #[trigger] rows[order[i] as int].2 == #[trigger] rows[order[j] as int].2
                ==> rows[order[i] as int].1 >= rows[order[j] as int].1,
        forall|i: int, j: int|
            0 <= i < j < order.len() && #[trigger] rows[order[i] as int].2 == #[trigger] rows[order[j] as int].2
                && rows[order[i] as int].1 == rows[order[j] as int].1 ==> rows[order[i] as int].0 >= rows[order[j] as int].0,
{
    assert forall|i: int, j: int|
        0 <= i < j < order.len() && #[trigger] rows[order[i] as int].2 == #[trigger] rows[order[j] as int].2
            implies rows[order[i] as int].1 >= rows[order[j] as int].1 by {
        assert(!listed_before(rows[order[j] as int], rows[order[i] as int]));
    }
    assert forall|i: int, j: int|
        0 <= i < j < order.len() && #[trigger] rows[order[i] as int].2 == #[trigger] rows[order[j] as int].2
            && rows[order[i] as int].1 == rows[order[j] as int].1 implies rows[order[i] as int].0 >= rows[order[j] as int].0 by {
        assert(!listed_before(rows[order[j] as int], rows[order[i] as int]));
    }
    lemma_pinned_listed_first(rows, order);
}

/// Where some row is not yet used, the order is not complete.
proof fn lemma_unused_exists(used: Seq<bool>, order: Seq<usize>, n: int)
    requires
        used.len() == n,
        order.len() < n,
        forall|i: int| 0 <= i < order.len() ==> order[i] < n && used[order[i] as int],
        forall|i: int, j: int| 0 <= i < j < order.len() ==> order[i] != order[j],
        forall|m: int| 0 <= m < n && used[m] ==> exists|i: int| 0 <= i < order.len() && order[i] == m,
    ensures
        exists|w: int| 0 <= w < n && !used[w],
{
    if forall|w: int| 0 <= w < n ==> used[w] {
        let f = |m: int| choose|i: int| 0 <= i < order.len() && order[i] == m;
        assert forall|a: int| 0 <= a < n implies 0 <= #[trigger] f(a) < order.len() by {
            assert(used[a]);
        }
        lemma_pigeonhole(f, n, order.len() as int);
        let (a, b) = choose|a: int, b: int| #![trigger f(a), f(b)] 0 <= a < b < n && f(a) == f(b);
        assert(used[a] && used[b]);
        assert(order[f(a)] == a);
        assert(order[f(b)] == b);
    }
}

/// A map from `0..n` into `0..k` with `k < n` sends two numbers to one.
proof fn lemma_pigeonhole(f: spec_fn(int) -> int, n: int, k: int)
    requires
        0 <= k < n,
        forall|a: int| 0 <= a < n ==> 0 <= #[trigger] f(a) < k,
    ensures
        exists|a: int, b: int| #![trigger f(a), f(b)] 0 <= a < b < n && f(a) == f(b),
    decreases n,
{
    if k == 0 {
        assert(0 <= f(0) < k);
    } else if exists|a: int| 0 <= a < n - 1 && #[trigger] f(a) == f(n - 1) {
        let a = choose|a: int| 0 <= a < n - 1 && #[trigger] f(a) == f(n - 1);
        assert(0 <= a < n - 1 < n && f(a) == f(n - 1));
    } else {
        let last = f(n - 1);
        let g = |a: int| if f(a) == k - 1 { last } else { f(a) };
        assert forall|a: int| 0 <= a < n - 1 implies 0 <= #[trigger] g(a) < k - 1 by {
            assert(f(a) != f(n - 1));
        }
        lemma_pigeonhole(g, n - 1, k - 1);
        let (a, b) = choose|a: int, b: int| #![trigger g(a), g(b)] 0 <= a < b < n - 1 && g(a) == g(b);
        assert(f(a) != f(n - 1) && f(b) != f(n - 1));
        if f(a) == k - 1 && f(b) != k - 1 {
            assert(f(b) == f(n - 1));
        } else if f(a) != k - 1 && f(b) == k - 1 {
            assert(f(a) == f(n - 1));
        } else {
            assert(f(a) == f(b));
        }
    }
}

/// In listing order, every pinned entry comes before every unpinned one.
pub proof fn lemma_pinned_listed_first(rows: Seq<EntryKey>, order: Seq<usize>)
    requires
        is_permutation(order, rows.len()),
        in_listing_order(rows, order),
    ensures
        forall|i: int, j: int|
            0 <= i < j < order.len() && #[trigger] rows[order[j] as int].2 ==> #[trigger] rows[order[i] as int].2,
{
    assert forall|i: int, j: int|
        0 <= i < j < order.len() && #[trigger] rows[order[j] as int].2 implies #[trigger] rows[order[i] as int].2 by {
        assert(!listed_before(rows[order[j] as int], rows[order[i] as int]));
    }
}

/// Whether `a` is listed before `b`.
fn listed_before_exec(a: &EntryKey, b: &EntryKey) -> (r: bool)
    ensures
        r == listed_before(*a, *b),
{
    (a.2 && !b.2) || (a.2 == b.2 && (a.1 > b.1 || (a.1 == b.1 && a.0 > b.0)))
}

/// `a` was used before `b`: the earlier last use, then the older id.
pub open spec fn used_earlier(a: EntryKey, b: EntryKey) -> bool {
    a.1 < b.1 || (a.1 == b.1 && a.0 < b.0)
}

/// The entry that eviction removes next: the unpinned one least recently
/// used (the older id first among equals); none when every entry is pinned,
/// so pinned entries are never evicted.
pub fn eviction_victim(rows: &Vec<EntryKey>) -> (r: Option<usize>)
    ensures
        r is None <==> forall|i: int| 0 <= i < rows@.len() ==> rows@[i].2,
        r matches Some(v) ==> {
            &&& v < rows@.len()
            &&& !rows@[v as int].2
            &&& forall|j: int| 0 <= j < rows@.len() && !rows@[j].2 ==> !used_earlier(rows@[j], rows@[v as int])
        },
        r matches Some(v) ==> forall|j: int|
            0 <= j < rows@.len() && !#[trigger] rows@[j].2 ==> rows@[j].1 > rows@[v as int].1 || (rows@[j].1
                == rows@[v as int].1 && rows@[j].0 >= rows@[v as int].0),
{
    let mut best: Option<usize> = None;
    let mut i: usize = 0;
    while i < rows.len()
        invariant
            i <= rows@.len(),
            best is None ==> forall|j: int| 0 <= j < i ==> rows@[j].2,
            best matches Some(v) ==> {
                &&& v < i
                &&& !rows@[v as int].2
                &&& forall|j: int| 0 <= j < i && !rows@[j].2 ==> !used_earlier(rows@[j], rows@[v as int])
            },
        decreases rows.len() - i,
    {
        let row = rows[i];
        if !row.2 {
            match best {
                None => {
                    best = Some(i);
                },
                Some(v) => {
                    let current = rows[v];
                    if row.1 < current.1 || (row.1 == current.1 && row.0 < current.0) {
                        best = Some(i);
                    }
                },
            }
        }
        i = i + 1;
    }
    best
}

} // verus!
