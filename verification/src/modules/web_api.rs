//! The web endpoint module: status, latency and a preview of the answer.
use vstd::prelude::*;

use crate::http_status::{status_line, status_text_spec};
use crate::localtime::{is_hms, local_hms};
use crate::module_trait::{ModuleUpdate, PanelModule};
use crate::text::{
    chars_of, push_str, slice_of, starts_with_spec, str_eq, string_of, trim, trim_end_char,
    trim_end_char_spec, trim_spec, trim_start_matches, trim_start_matches_spec,
};

verus! {

/// The number of bytes `c` takes in UTF-8.
pub open spec fn utf8_width(c: char) -> nat {
    if (c as u32) < 0x80 {
        1
    } else if (c as u32) < 0x800 {
        2
    } else if (c as u32) < 0x10000 {
        3
    } else {
        4
    }
}

/// The number of bytes `s` takes in UTF-8: `str::len`.
pub open spec fn utf8_len(s: Seq<char>) -> nat
    decreases s.len(),
{
    if s.len() == 0 {
        0
    } else {
        utf8_len(s.drop_last()) + utf8_width(s.last())
    }
}

fn utf8_width_exec(c: char) -> (r: usize)
    ensures
        r == utf8_width(c),
{
    let u = c as u32;
    if u < 0x80 {
        1
    } else if u < 0x800 {
        2
    } else if u < 0x10000 {
        3
    } else {
        4
    }
}

/// Whether the first `n` bytes of `s` end on a character boundary: some
/// prefix of `s` takes exactly `n` bytes.
pub open spec fn is_boundary(s: Seq<char>, n: nat) -> bool {
    exists|k: int| 0 <= k <= s.len() && utf8_len(#[trigger] s.take(k)) == n
}

/// The prefix of `s` that takes `n` bytes, when there is one.
pub open spec fn byte_prefix(s: Seq<char>, n: nat) -> Seq<char> {
    s.take(choose|k: int| 0 <= k <= s.len() && utf8_len(#[trigger] s.take(k)) == n)
}

/// Whether the preview of an answer is defined: the answer, trimmed, takes
/// at most 200 bytes, or its first 200 bytes end on a character boundary.
/// (Slicing a `str` elsewhere panics.)
pub open spec fn preview_defined(text: Seq<char>) -> bool {
    let t = trim_spec(text);
    utf8_len(t) <= 200 || is_boundary(t, 200)
}

/// The preview of an answer: the answer trimmed, cut to its first 200 bytes
/// followed by `...` when it is longer.
pub open spec fn preview_spec(text: Seq<char>) -> Seq<char> {
    let t = trim_spec(text);
    if utf8_len(t) > 200 {
        byte_prefix(t, 200) + "..."@
    } else {
        t
    }
}

proof fn lemma_take_step(s: Seq<char>, k: int)
    requires
        0 <= k < s.len(),
    ensures
        utf8_len(s.take(k + 1)) == utf8_len(s.take(k)) + utf8_width(s[k]),
{
    assert(s.take(k + 1).drop_last() =~= s.take(k));
}

proof fn lemma_take_grows(s: Seq<char>, a: int, b: int)
    requires
        0 <= a <= b <= s.len(),
    ensures
        utf8_len(s.take(a)) + (b - a) <= utf8_len(s.take(b)),
    decreases b - a,
{
    if a < b {
        lemma_take_grows(s, a, b - 1);
        lemma_take_step(s, b - 1);
    }
}

/// The byte length of `s` up to `n`: `min(str::len, n + 4)` computed
/// character by character, with the first character count whose prefix
/// reaches `n` bytes.
fn scan_bytes(s: &Vec<char>, n: usize) -> (r: (usize, usize))
    requires
        n <= 1000,
    ensures
        r.0 <= s.len(),
        r.1 == utf8_len(s@.take(r.0 as int)),
        r.0 < s.len() ==> r.1 >= n,
        r.0 == s.len() || r.1 >= n,
        forall|k: int| 0 <= k < r.0 ==> utf8_len(#[trigger] s@.take(k)) < n,
{
    let mut k: usize = 0;
    let mut acc: usize = 0;
    assert(s@.take(0) =~= Seq::<char>::empty());
    while k < s.len() && acc < n
        invariant
            k <= s.len(),
            acc == utf8_len(s@.take(k as int)),
            acc < n + 4,
            n <= 1000,
            forall|j: int| 0 <= j < k ==> utf8_len(#[trigger] s@.take(j)) < n,
        decreases s.len() - k,
    {
        proof {
            lemma_take_step(s@, k as int);
        }
        acc = acc + utf8_width_exec(s[k]);
        k = k + 1;
    }
    (k, acc)
}

/// Whether the preview of `text` is defined (see `preview_defined`).
pub fn preview_is_defined(text: &str) -> (r: bool)
    ensures
        r == preview_defined(text@),
{
    let t = trim(&chars_of(text));
    let (k, acc) = scan_bytes(&t, 200);
    if k == t.len() && acc <= 200 {
        proof {
            assert(t@.take(t@.len() as int) =~= t@);
        }
        true
    } else {
        proof {
            assert(acc >= 200);
            if k == t.len() {
                assert(t@.take(t@.len() as int) =~= t@);
            } else {
                lemma_take_grows(t@, k as int, t@.len() as int);
                assert(t@.take(t@.len() as int) =~= t@);
            }
            if acc != 200 {
                assert forall|j: int| 0 <= j <= t@.len() implies utf8_len(#[trigger] t@.take(j)) != 200 by {
                    if j > k {
                        lemma_take_grows(t@, k as int, j);
                    }
                }
            } else {
                assert(utf8_len(t@.take(k as int)) == 200);
            }
        }
        acc == 200
    }
}

/// The preview of an answer (see `preview_spec`).
pub fn preview(text: &str) -> (r: String)
    requires
        preview_defined(text@),
    ensures
        r@ == preview_spec(text@),
{
    let t = trim(&chars_of(text));
    let (k, acc) = scan_bytes(&t, 201);
    if acc > 200 {
        let (m, acc2) = scan_bytes(&t, 200);
        proof {
            assert(utf8_len(t@) > 200) by {
                if k < t.len() {
                    lemma_take_grows(t@, k as int, t@.len() as int);
                }
                assert(t@.take(t@.len() as int) =~= t@);
            }
            let w = choose|j: int| 0 <= j <= t@.len() && utf8_len(#[trigger] t@.take(j)) == 200;
            assert(acc2 == 200 && w == m) by {
                if w < m {
                } else if w > m {
                    assert(m < t@.len());
                    lemma_take_grows(t@, m as int, w);
                    if acc2 > 200 {
                        assert(utf8_len(t@.take(w)) > 200);
                    }
                }
                if m == t@.len() {
                    assert(t@.take(t@.len() as int) =~= t@);
                }
            }
        }
        let mut v = slice_of(&t, 0, m);
        assert(v@ =~= t@.take(m as int));
        push_str(&mut v, "...");
        string_of(&v)
    } else {
        proof {
            if k < t.len() {
            } else {
                assert(t@.take(t@.len() as int) =~= t@);
            }
        }
        string_of(&t)
    }
}

/// An address without its scheme (`https://`, `http://`, each as often as
/// it repeats) and without trailing slashes.
pub open spec fn shorten_url_spec(url: Seq<char>) -> Seq<char> {
    trim_end_char_spec(
        trim_start_matches_spec(trim_start_matches_spec(url, "https://"@), "http://"@),
        '/',
    )
}

pub fn shorten_url(url: &str) -> (r: String)
    ensures
        r@ == shorten_url_spec(url@),
{
    let a = trim_start_matches(&chars_of(url), &chars_of("https://"));
    let b = trim_start_matches(&a, &chars_of("http://"));
    string_of(&trim_end_char(&b, '/'))
}

/// How the status is coloured: an error, a 2xx, a 3xx, or anything else.
#[derive(Debug, Clone, Copy, PartialEq, Eq, Structural)]
pub enum StatusClass {
    Failed,
    Success,
    Redirect,
    Other,
}

/// The line under the response time: the error, else the answer's
/// preview, else nothing.
#[derive(Debug, Clone, PartialEq, Eq)]
pub enum DetailLine {
    Error(String),
    Response(String),
    Nothing,
}

/// A web endpoint watched by the panel.
pub struct WebApiModule {
    name: String,
    url: String,
    status: String,
    response_time: String,
    error: Option<String>,
    last_update: String,
    refresh_interval: u64,
    paused: bool,
    last_response: String,
}

impl WebApiModule {
    pub closed spec fn name_text(&self) -> Seq<char> {
        self.name@
    }

    pub closed spec fn url_text(&self) -> Seq<char> {
        self.url@
    }

    /// Status, response time and answer preview.
    pub closed spec fn reply_texts(&self) -> (Seq<char>, Seq<char>, Seq<char>) {
        (self.status@, self.response_time@, self.last_response@)
    }

    pub closed spec fn last_update_text(&self) -> Seq<char> {
        self.last_update@
    }

    pub fn new(name: String, url: String, refresh_interval: u64) -> (r: Self)
        ensures
            r.name_text() == name@,
            r.url_text() == url@,
            r.reply_texts() == (Seq::<char>::empty(), Seq::<char>::empty(), Seq::<char>::empty()),
            r.last_update_text() == Seq::<char>::empty(),
            r.spec_error() is None,
            r.spec_stored_interval() == refresh_interval,
            !r.spec_paused(),
    {
        WebApiModule {
            name,
            url,
            status: String::new(),
            response_time: String::new(),
            error: None,
            last_update: String::new(),
            refresh_interval,
            paused: false,
            last_response: String::new(),
        }
    }

    /// Records an answer: its status code, the time it took as shown, and
    /// its body (or why the body could not be read). Clears the error.
    pub fn apply_response(&mut self, code: u16, elapsed: String, body: Result<String, String>)
        requires
            100 <= code <= 999,
            match body {
                Ok(text) => preview_defined(text@),
                Err(_) => true,
            },
        ensures
            final(self).reply_texts() == (
                status_text_spec(code, ""@),
                elapsed@,
                match body {
                    Ok(text) => preview_spec(text@),
                    Err(e) => "[读取失败] "@ + e@,
                },
            ),
            final(self).spec_error() is None,
            is_hms(final(self).last_update_text()),
            final(self).name_text() == old(self).name_text(),
            final(self).url_text() == old(self).url_text(),
            final(self).spec_stored_interval() == old(self).spec_stored_interval(),
            final(self).spec_paused() == old(self).spec_paused(),
    {
        self.response_time = elapsed;
        self.status = status_line(code);
        self.error = None;
        self.last_response = match body {
            Ok(text) => preview(text.as_str()),
            Err(e) => {
                let mut v: Vec<char> = Vec::new();
                push_str(&mut v, "[读取失败] ");
                push_str(&mut v, e.as_str());
                string_of(&v)
            },
        };
        self.last_update = local_hms();
    }

    /// Records a request that failed, with the error's text.
    pub fn apply_failure(&mut self, error: String)
        ensures
            final(self).reply_texts() == ("ERR"@, Seq::<char>::empty(), Seq::<char>::empty()),
            final(self).spec_error() == Some(error@),
            is_hms(final(self).last_update_text()),
            final(self).name_text() == old(self).name_text(),
            final(self).url_text() == old(self).url_text(),
            final(self).spec_stored_interval() == old(self).spec_stored_interval(),
            final(self).spec_paused() == old(self).spec_paused(),
    {
        self.response_time = String::new();
        self.status = "ERR".to_owned();
        self.error = Some(error);
        self.last_response = String::new();
        self.last_update = local_hms();
    }

    /// The result of an update: a success unless there is an error, which it
    /// carries.
    pub fn update_result(&self) -> (r: ModuleUpdate)
        ensures
            r.id@ == self.name_text(),
            r.success == (self.spec_error() is None),
            match r.error {
                Some(e) => self.spec_error() == Some(e@),
                None => self.spec_error() is None,
            },
    {
        ModuleUpdate {
            id: self.name.clone(),
            success: self.error.is_none(),
            error: match &self.error {
                Some(e) => Some(e.clone()),
                None => None,
            },
        }
    }

    /// How the status is coloured: `Failed` when there is an error, else by
    /// the status's first character (`2`, `3`, other).
    pub fn status_class(&self) -> (r: StatusClass)
        ensures
            r == (if self.spec_error() is Some {
                StatusClass::Failed
            } else if starts_with_spec(self.reply_texts().0, "2"@) {
                StatusClass::Success
            } else if starts_with_spec(self.reply_texts().0, "3"@) {
                StatusClass::Redirect
            } else {
                StatusClass::Other
            }),
    {
        if self.error.is_some() {
            return StatusClass::Failed;
        }
        let s = chars_of(self.status.as_str());
        proof {
            reveal_strlit("2");
            reveal_strlit("3");
        }
        assert("2"@.len() == 1 && "2"@[0] == '2');
        assert("3"@.len() == 1 && "3"@[0] == '3');
        assert(s@.len() > 0 ==> s@.take(1)[0] == s@[0]);
        if s.len() > 0 && s[0] == '2' {
            assert(s@.take(1) =~= "2"@);
            StatusClass::Success
        } else {
            assert(!starts_with_spec(s@, "2"@)) by {
                if s@.len() >= 1 {
                    assert(s@.take(1)[0] != "2"@[0]);
                }
            }
            if s.len() > 0 && s[0] == '3' {
                assert(s@.take(1) =~= "3"@);
                StatusClass::Redirect
            } else {
                assert(!starts_with_spec(s@, "3"@)) by {
                    if s@.len() >= 1 {
                        assert(s@.take(1)[0] != "3"@[0]);
                    }
                }
                StatusClass::Other
            }
        }
    }

    /// When the module last took its readings (`%H:%M:%S`), or nothing yet.
    pub fn last_update(&self) -> (r: &str)
        ensures
            r@ == self.last_update_text(),
    {
        self.last_update.as_str()
    }

    pub fn name(&self) -> (r: &str)
        ensures
            r@ == self.name_text(),
    {
        self.name.as_str()
    }

    pub fn url(&self) -> (r: &str)
        ensures
            r@ == self.url_text(),
    {
        self.url.as_str()
    }

    pub fn status(&self) -> (r: &str)
        ensures
            r@ == self.reply_texts().0,
    {
        self.status.as_str()
    }

    pub fn response_time(&self) -> (r: &str)
        ensures
            r@ == self.reply_texts().1,
    {
        self.response_time.as_str()
    }

    pub fn last_response(&self) -> (r: &str)
        ensures
            r@ == self.reply_texts().2,
    {
        self.last_response.as_str()
    }

    /// What is shown under the response time: the error when there is one,
    /// else the preview when it is not empty, else nothing.
    pub fn detail_line(&self) -> (r: DetailLine)
        ensures
            match self.spec_error() {
                Some(e) => r matches DetailLine::Error(t) && t@ == e,
                None => if self.reply_texts().2.len() > 0 {
                    r matches DetailLine::Response(t) && t@ == self.reply_texts().2
                } else {
                    r matches DetailLine::Nothing
                },
            },
    {
        proof {
            reveal_strlit("");
        }
        assert(self.last_response@.len() == 0 ==> self.last_response@ =~= ""@);
        match &self.error {
            Some(e) => DetailLine::Error(e.clone()),
            None => if !str_eq(self.last_response.as_str(), "") {
                DetailLine::Response(self.last_response.clone())
            } else {
                DetailLine::Nothing
            },
        }
    }

    /// The status as shown: `等待中` before the first answer.
    pub fn status_shown(&self) -> (r: String)
        ensures
            r@ == (if self.reply_texts().0.len() == 0 {
                "等待中"@
            } else {
                self.reply_texts().0
            }),
    {
        proof {
            reveal_strlit("");
        }
        assert(self.status@.len() == 0 ==> self.status@ =~= ""@);
        if str_eq(self.status.as_str(), "") {
            "等待中".to_owned()
        } else {
            self.status.clone()
        }
    }

    /// The response time as shown: `--` when there is none.
    pub fn response_time_shown(&self) -> (r: String)
        ensures
            r@ == (if self.reply_texts().1.len() == 0 {
                "--"@
            } else {
                self.reply_texts().1
            }),
    {
        proof {
            reveal_strlit("");
        }
        assert(self.response_time@.len() == 0 ==> self.response_time@ =~= ""@);
        if str_eq(self.response_time.as_str(), "") {
            "--".to_owned()
        } else {
            self.response_time.clone()
        }
    }

    pub fn pause_line(&self) -> (r: String)
        ensures
            r@ == super::pause_label_spec(self.spec_paused(), self.spec_stored_interval()),
    {
        super::pause_label(self.paused, self.refresh_interval)
    }
}

impl PanelModule for WebApiModule {
    open spec fn spec_id(&self) -> Seq<char> {
        self.name_text()
    }

    open spec fn spec_name(&self) -> Seq<char> {
        self.name_text()
    }

    closed spec fn spec_stored_interval(&self) -> u64 {
        self.refresh_interval
    }

    closed spec fn spec_paused(&self) -> bool {
        self.paused
    }

    /// 8 rows when there is an error or a preview to show, else 7.
    open spec fn spec_height(&self) -> u16 {
        if self.spec_error() is Some || self.reply_texts().2.len() > 0 {
            8
        } else {
            7
        }
    }

    closed spec fn spec_error(&self) -> Option<Seq<char>> {
        match self.error {
            Some(e) => Some(e@),
            None => None,
        }
    }

    fn id(&self) -> (r: &str) {
        self.name.as_str()
    }

    fn name(&self) -> (r: &str) {
        self.name.as_str()
    }

    fn refresh_interval(&self) -> (r: u64) {
        if self.paused {
            0
        } else {
            self.refresh_interval
        }
    }

    /// Sets the interval; a positive interval resumes, 0 leaves the pause
    /// switch as it was.
    fn set_refresh_interval(&mut self, interval: u64)
        ensures
            final(self).spec_paused() == (if interval > 0 { false } else { old(self).spec_paused() }),
    {
        self.refresh_interval = interval;
        if interval > 0 {
            self.paused = false;
        }
    }

    fn toggle_pause(&mut self) {
        self.paused = !self.paused;
    }

    fn height(&self) -> (r: u16) {
        proof {
            reveal_strlit("");
        }
        assert(self.last_response@.len() == 0 ==> self.last_response@ =~= ""@);
        if self.error.is_some() || !str_eq(self.last_response.as_str(), "") {
            8
        } else {
            assert(self.last_response@ =~= ""@);
            7
        }
    }

    fn get_error(&self) -> (r: Option<&str>) {
        match &self.error {
            Some(e) => Some(e.as_str()),
            None => None,
        }
    }
}

proof fn lemma_utf8_len_concat(a: Seq<char>, b: Seq<char>)
    ensures
        utf8_len(a + b) == utf8_len(a) + utf8_len(b),
    decreases b.len(),
{
    if b.len() == 0 {
        assert(a + b =~= a);
    } else {
        lemma_utf8_len_concat(a, b.drop_last());
        assert((a + b).drop_last() =~= a + b.drop_last());
        assert((a + b).last() == b.last());
    }
}

/// The preview of an answer takes at most 203 bytes: 200 of the answer and
/// the three dots.
pub proof fn law_preview_bounded(text: Seq<char>)
    requires
        preview_defined(text),
    ensures
        utf8_len(preview_spec(text)) <= 203,
{
    let t = trim_spec(text);
    if utf8_len(t) > 200 {
        let k = choose|k: int| 0 <= k <= t.len() && utf8_len(#[trigger] t.take(k)) == 200;
        assert(utf8_len(t.take(k)) == 200);
        lemma_utf8_len_concat(t.take(k), "..."@);
        reveal_strlit("...");
        assert("..."@ =~= seq!['.', '.', '.']);
        assert(seq!['.', '.', '.'].drop_last() =~= seq!['.', '.']);
        assert(seq!['.', '.'].drop_last() =~= seq!['.']);
        assert(seq!['.'].drop_last() =~= Seq::<char>::empty());
        assert(utf8_width('.') == 1);
        assert(utf8_len(Seq::<char>::empty()) == 0);
        assert(utf8_len(seq!['.']) == 1);
        assert(utf8_len(seq!['.', '.']) == 2);
        assert(utf8_len(seq!['.', '.', '.']) == 3);
    }
}

} // verus!
