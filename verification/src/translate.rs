//! Translation of lyrics: the errors, the language check, the batching of the lines into
//! requests and the reading of the HTTP status of a translation service.
use vstd::prelude::*;
use crate::text::{
    all_blank, chars_of, copy_strings, dec_str, is_blank, push_char, push_decimal, strings_view,
};

verus! {

/// The lines translated, and the language that the service detected.
#[derive(Debug, Clone, PartialEq)]
pub struct Translated {
    pub lines: Vec<String>,
    pub source_lang: String,
}

/// The characters translated in the current period and the period's limit (DeepL's
/// `/v2/usage`).
#[derive(Debug, Clone, Copy, PartialEq, Eq, Structural)]
pub struct Usage {
    pub character_count: u64,
    pub character_limit: u64,
}

/// Why a translation failed.
#[derive(Debug, Clone, PartialEq)]
pub enum TranslateError {
    InvalidKey,
    QuotaExceeded,
    Network(String),
    Unexpected(String),
}

pub enum TranslateErrorView {
    InvalidKey,
    QuotaExceeded,
    Network(Seq<char>),
    Unexpected(Seq<char>),
}

impl View for TranslateError {
    type V = TranslateErrorView;

    open spec fn view(&self) -> TranslateErrorView {
        match self {
            TranslateError::InvalidKey => TranslateErrorView::InvalidKey,
            TranslateError::QuotaExceeded => TranslateErrorView::QuotaExceeded,
            TranslateError::Network(m) => TranslateErrorView::Network(m@),
            TranslateError::Unexpected(m) => TranslateErrorView::Unexpected(m@),
        }
    }
}

// ---------------------------------------------------------------------------------------
// Languages.
/// `c` in upper case when it is an ASCII letter.
pub open spec fn ascii_upper(c: char) -> char {
    if 'a' <= c && c <= 'z' {
        ((c as u32) - 32) as char
    } else {
        c
    }
}

/// The part of a language code before the first `-`, in upper case (`pt-BR` gives `PT`).
pub open spec fn lang_base(s: Seq<char>) -> Seq<char> {
    let head = match crate::text::find_char(s, '-') {
        Some(i) => s.take(i),
        None => s,
    };
    head.map_values(|c: char| ascii_upper(c))
}

/// The detected language is the target language, comparing base codes (`PT` is `PT-BR`).
pub open spec fn same_lang(source: Seq<char>, target: Seq<char>) -> bool {
    source.len() > 0 && lang_base(source) == lang_base(target)
}

fn base_of(s: &str) -> (r: Vec<char>)
    ensures
        r@ == lang_base(s@),
{
    let v = chars_of(s);
    let end = match crate::text::find_in(&v, 0, v.len(), '-') {
        Some(i) => i,
        None => v.len(),
    };
    let ghost head = if end < v@.len() {
        v@.take(end as int)
    } else {
        v@
    };
    assert(v@.subrange(0, v@.len() as int) =~= v@);
    let mut out: Vec<char> = Vec::new();
    let mut i: usize = 0;
    while i < end
        invariant
            i <= end <= v@.len(),
            v@ == s@,
            head == v@.take(end as int),
            out@ == v@.take(i as int).map_values(|c: char| ascii_upper(c)),
        decreases end - i,
    {
        let c = v[i];
        let u = if 'a' <= c && c <= 'z' {
            ((c as u32) - 32) as u8 as char
        } else {
            c
        };
        assert(u == ascii_upper(c)) by {
            if 'a' <= c && c <= 'z' {
                assert(((c as u32) - 32) as u8 as char == ((c as u32) - 32) as char);
            }
        };
        out.push(u);
        assert(v@.take(i + 1).map_values(|c: char| ascii_upper(c)) =~= v@.take(i as int).map_values(
            |c: char| ascii_upper(c),
        ).push(u));
        i = i + 1;
    }
    proof {
        if end == v@.len() {
            assert(v@.take(end as int) =~= v@);
        }
        assert(out@ =~= head.map_values(|c: char| ascii_upper(c)));
    }
    out
}

/// `source` and `target` name the same language by their base codes (`PT` and `PT-BR`,
/// `en` and `EN-US`); an empty `source` is no language.
pub fn same_language(source: &str, target: &str) -> (r: bool)
    ensures
        r == same_lang(source@, target@),
{
    if source.is_empty() {
        return false;
    }
    let a = base_of(source);
    let b = base_of(target);
    if a.len() != b.len() {
        assert(a@ != b@);
        return false;
    }
    let mut i: usize = 0;
    while i < a.len()
        invariant
            i <= a@.len() == b@.len(),
            a@ == lang_base(source@),
            b@ == lang_base(target@),
            source@.len() > 0,
            forall|j: int| 0 <= j < i ==> a@[j] == b@[j],
        decreases a@.len() - i,
    {
        if a[i] != b[i] {
            assert(a@[i as int] != b@[i as int]);
            return false;
        }
        i = i + 1;
    }
    assert(a@ =~= b@);
    true
}

/// Language equality is symmetric between two detected languages.
pub proof fn law_same_language_symmetric(a: Seq<char>, b: Seq<char>)
    requires
        a.len() > 0,
        b.len() > 0,
    ensures
        same_lang(a, b) == same_lang(b, a),
{
}

// ---------------------------------------------------------------------------------------
// HTTP status of the services.
/// The reason phrase that the `http` crate knows for a status code (`Not Found` for 404).
pub uninterp spec fn http_reason(code: u16) -> Option<Seq<char>>;

/// The reason phrase of a status code: `reqwest::StatusCode::from_u16` (which accepts
/// 100 to 999), then `StatusCode::canonical_reason` of the `http` crate, such as
/// `Not Found` for 404, or none for a code without a phrase. The contract claims only that
/// the phrase is a function of the code (`http_reason`); which phrase a code has is not
/// stated.
#[verifier::external_body]
fn canonical_reason(code: u16) -> (r: Option<String>)
    requires
        100 <= code <= 999,
    ensures
        match r {
            Some(s) => http_reason(code) == Some(s@),
            None => http_reason(code) is None,
        },
{
    match reqwest::StatusCode::from_u16(code) {
        Ok(status) => status.canonical_reason().map(String::from),
        Err(_) => None,
    }
}

/// How a status code prints: the number, a space and the reason phrase.
pub open spec fn status_display(code: u16) -> Seq<char> {
    dec_str(code as nat) + seq![' '] + match http_reason(code) {
        Some(p) => p,
        None => "<unknown status code>"@,
    }
}

/// `HTTP ` and the printed status code.
pub fn status_message(code: u16) -> (r: String)
    requires
        100 <= code <= 999,
    ensures
        r@ == "HTTP "@ + status_display(code),
{
    let mut s = String::from_str("HTTP ");
    push_decimal(&mut s, code as u128);
    push_char(&mut s, ' ');
    match canonical_reason(code) {
        Some(p) => s.append(p.as_str()),
        None => s.append("<unknown status code>"),
    }
    s
}

/// A status of 200 to 299.
pub open spec fn is_success(code: u16) -> bool {
    200 <= code <= 299
}

/// What a DeepL status means: 403 is a bad key, 456 an exhausted quota, any other failure
/// is unexpected.
pub open spec fn deepl_status_result(code: u16) -> Result<(), TranslateErrorView> {
    if code == 403 {
        Err(TranslateErrorView::InvalidKey)
    } else if code == 456 {
        Err(TranslateErrorView::QuotaExceeded)
    } else if !is_success(code) {
        Err(TranslateErrorView::Unexpected("HTTP "@ + status_display(code)))
    } else {
        Ok(())
    }
}

/// Reads the status of a DeepL response.
pub fn check(status: u16) -> (r: Result<(), TranslateError>)
    requires
        100 <= status <= 999,
    ensures
        match r {
            Ok(()) => deepl_status_result(status) is Ok,
            Err(e) => deepl_status_result(status) == Err::<(), TranslateErrorView>(e@),
        },
{
    if status == 403 {
        Err(TranslateError::InvalidKey)
    } else if status == 456 {
        Err(TranslateError::QuotaExceeded)
    } else if !(200 <= status && status <= 299) {
        Err(TranslateError::Unexpected(status_message(status)))
    } else {
        Ok(())
    }
}

/// What a status of the translation proxy means: 503 is the monthly quota; any other
/// failure (429 per address, passing 5xx) is a network error, so that nothing is kept and
/// the next track tries again.
pub open spec fn proxy_status_result(code: u16) -> Result<(), TranslateErrorView> {
    if code == 503 {
        Err(TranslateErrorView::QuotaExceeded)
    } else if !is_success(code) {
        Err(TranslateErrorView::Network("HTTP "@ + dec_str(code as nat)))
    } else {
        Ok(())
    }
}

/// Reads the status of a proxy response.
pub fn proxy_check(status: u16) -> (r: Result<(), TranslateError>)
    ensures
        match r {
            Ok(()) => proxy_status_result(status) is Ok,
            Err(e) => proxy_status_result(status) == Err::<(), TranslateErrorView>(e@),
        },
{
    if status == 503 {
        Err(TranslateError::QuotaExceeded)
    } else if !(200 <= status && status <= 299) {
        let mut s = String::from_str("HTTP ");
        push_decimal(&mut s, status as u128);
        Err(TranslateError::Network(s))
    } else {
        Ok(())
    }
}

// ---------------------------------------------------------------------------------------
// Batching.
/// The indices of the lines that are not blank, in order.
pub open spec fn nonblank_indices(lines: Seq<Seq<char>>) -> Seq<int>
    decreases lines.len(),
{
    if lines.len() == 0 {
        seq![]
    } else if !is_blank(lines.last()) {
        nonblank_indices(lines.drop_last()).push(lines.len() - 1)
    } else {
        nonblank_indices(lines.drop_last())
    }
}

/// The language kept after a response: the first non-empty one seen.
pub open spec fn pick_source(src: Seq<char>, langs: Seq<Seq<char>>) -> Seq<char>
    decreases langs.len(),
{
    if langs.len() == 0 {
        src
    } else {
        pick_source(
            if src.len() == 0 {
                langs[0]
            } else {
                src
            },
            langs.drop_first(),
        )
    }
}

/// The message of a response with `got` lines for `want` sent.
pub open spec fn count_message(who: Seq<char>, got: nat, want: nat) -> Seq<char> {
    who + " devolveu "@ + dec_str(got) + " de "@ + dec_str(want) + " linhas"@
}

/// Lines per DeepL request.
pub const DEEPL_BATCH: usize = 50;

/// Lines per request to the translation proxy: the proxy's own limit (above it, it answers
/// 400).
pub const PROXY_BATCH: usize = 400;

/// A translation in progress: blank lines are kept out of the requests and come back as
/// empty lines; the others go out in batches of at most `batch` lines.
pub struct BatchJob {
    lines: Vec<String>,
    idx: Vec<usize>,
    out: Vec<String>,
    next: usize,
    batch: usize,
    source: String,
    received: Ghost<Seq<Seq<char>>>,
}

/// The state of a translation in progress, as the contracts see it.
pub struct BatchJobView {
    /// The lines to translate.
    pub lines: Seq<Seq<char>>,
    /// The indices of the non-blank lines.
    pub indices: Seq<int>,
    /// How many of them have been translated.
    pub next: int,
    pub batch: int,
    /// The result so far.
    pub out: Seq<Seq<char>>,
    pub source: Seq<char>,
    /// The translations received, in order: one per non-blank line so far.
    pub received: Seq<Seq<char>>,
}

impl View for BatchJob {
    type V = BatchJobView;

    closed spec fn view(&self) -> BatchJobView {
        BatchJobView {
            lines: strings_view(self.lines@),
            indices: self.idx@.map_values(|i: usize| i as int),
            next: self.next as int,
            batch: self.batch as int,
            out: strings_view(self.out@),
            source: self.source@,
            received: self.received@,
        }
    }
}

/// The end (exclusive) of the next chunk of indices.
pub open spec fn chunk_end(j: BatchJobView) -> int {
    if j.next + j.batch <= j.indices.len() {
        j.next + j.batch
    } else {
        j.indices.len() as int
    }
}

/// The texts of the next request.
pub open spec fn chunk_texts(j: BatchJobView) -> Seq<Seq<char>> {
    j.indices.subrange(j.next, chunk_end(j)).map_values(|i: int| j.lines[i])
}

/// Every non-blank line so far holds its translation and every other line is empty.
pub open spec fn filled(j: BatchJobView) -> bool {
    &&& j.out.len() == j.lines.len()
    &&& j.received.len() == j.next
    &&& forall|k: int| 0 <= k < j.next ==> #[trigger] j.out[j.indices[k]] == j.received[k]
    &&& forall|i: int|
        0 <= i < j.out.len() && !(exists|k: int| 0 <= k < j.next && j.indices[k] == i)
            ==> #[trigger] j.out[i] == Seq::<char>::empty()
}

proof fn lemma_nonblank_indices(lines: Seq<Seq<char>>)
    ensures
        forall|k: int|
            0 <= k < nonblank_indices(lines).len() ==> 0 <= #[trigger] nonblank_indices(lines)[k]
                < lines.len() && !is_blank(lines[nonblank_indices(lines)[k]]),
        forall|a: int, b: int|
            0 <= a < b < nonblank_indices(lines).len() ==> nonblank_indices(lines)[a]
                < nonblank_indices(lines)[b],
        forall|i: int|
            0 <= i < lines.len() && !is_blank(#[trigger] lines[i]) ==> exists|k: int|
                0 <= k < nonblank_indices(lines).len() && nonblank_indices(lines)[k] == i,
    decreases lines.len(),
{
    if lines.len() > 0 {
        let p = lines.drop_last();
        lemma_nonblank_indices(p);
        assert forall|i: int| 0 <= i < lines.len() && !is_blank(#[trigger] lines[i]) implies exists|
            k: int,
        | 0 <= k < nonblank_indices(lines).len() && nonblank_indices(lines)[k] == i by {
            if i < lines.len() - 1 {
                assert(p[i] == lines[i]);
                let k = choose|k: int| 0 <= k < nonblank_indices(p).len() && nonblank_indices(p)[k] == i;
                assert(nonblank_indices(lines)[k] == i);
            } else {
                assert(nonblank_indices(lines)[nonblank_indices(p).len() as int] == i);
            }
        }
        assert forall|k: int| 0 <= k < nonblank_indices(lines).len() implies 0
            <= #[trigger] nonblank_indices(lines)[k] < lines.len() && !is_blank(
            lines[nonblank_indices(lines)[k]],
        ) by {
            if k < nonblank_indices(p).len() {
                assert(nonblank_indices(lines)[k] == nonblank_indices(p)[k]);
                assert(p[nonblank_indices(p)[k]] == lines[nonblank_indices(p)[k]]);
            }
        }
    }
}

impl BatchJob {
    #[verifier::type_invariant]
    spec fn inv(self) -> bool {
        &&& self.batch > 0
        &&& self.idx@.map_values(|i: usize| i as int) == nonblank_indices(strings_view(self.lines@))
        &&& self.next <= self.idx@.len()
        &&& filled(self@)
    }

    /// A job for `lines`, to be sent `batch` lines at a time.
    pub fn new(lines: &Vec<String>, batch: usize) -> (r: BatchJob)
        requires
            batch > 0,
        ensures
            r@.lines == strings_view(lines@),
            r@.indices == nonblank_indices(strings_view(lines@)),
            r@.next == 0,
            r@.batch == batch,
            r@.out == Seq::new(lines@.len(), |i: int| Seq::<char>::empty()),
            r@.source == Seq::<char>::empty(),
            r@.received == Seq::<Seq<char>>::empty(),
            filled(r@),
    {
        let ghost lv = strings_view(lines@);
        let mut idx: Vec<usize> = Vec::new();
        let mut out: Vec<String> = Vec::new();
        let mut i: usize = 0;
        while i < lines.len()
            invariant
                i <= lines@.len(),
                lv == strings_view(lines@),
                idx@.map_values(|x: usize| x as int) == nonblank_indices(lv.take(i as int)),
                strings_view(out@) == Seq::new(i as nat, |k: int| Seq::<char>::empty()),
            decreases lines@.len() - i,
        {
            let blank = all_blank(&lines[i]);
            let ghost before = idx@.map_values(|x: usize| x as int);
            assert(lv.take(i + 1).drop_last() =~= lv.take(i as int));
            assert(lv.take(i + 1).last() == lines@[i as int]@);
            if !blank {
                idx.push(i);
                assert(idx@.map_values(|x: usize| x as int) =~= before.push(i as int));
            }
            let ghost prev = strings_view(out@);
            let e = String::new();
            assert(e@ == Seq::<char>::empty());
            out.push(e);
            assert(strings_view(out@) =~= prev.push(Seq::<char>::empty()));
            assert(strings_view(out@) =~= Seq::new((i + 1) as nat, |k: int| Seq::<char>::empty()));
            i = i + 1;
        }
        assert(lv.take(i as int) =~= lv);
        let copy = copy_strings(lines);
        let r = BatchJob {
            lines: copy,
            idx,
            out,
            next: 0,
            batch,
            source: String::new(),
            received: Ghost(Seq::empty()),
        };
        proof {
            lemma_nonblank_indices(lv);
            assert forall|k: int|
                0 <= k < strings_view(r.out@).len() && !(exists|m: int|
                    0 <= m < 0 && r@.indices[m] == k) implies #[trigger] strings_view(r.out@)[k]
                == Seq::<char>::empty() by {}
        }
        r
    }

    /// No request is left.
    pub fn is_done(&self) -> (r: bool)
        ensures
            r == (self@.next == self@.indices.len()),
    {
        proof {
            use_type_invariant(self);
        }
        self.next == self.idx.len()
    }

    /// The texts of the next request, `None` when all lines are done.
    pub fn next_request(&self) -> (r: Option<Vec<String>>)
        ensures
            self@.next < self@.indices.len() ==> (r matches Some(t) && strings_view(t@) == chunk_texts(
                self@,
            )),
            self@.next >= self@.indices.len() ==> r is None,
    {
        proof {
            use_type_invariant(self);
            lemma_nonblank_indices(strings_view(self.lines@));
        }
        if self.next >= self.idx.len() {
            return None;
        }
        let end = if self.batch <= self.idx.len() - self.next {
            self.next + self.batch
        } else {
            self.idx.len()
        };
        let mut t: Vec<String> = Vec::new();
        let mut k = self.next;
        while k < end
            invariant
                self.next <= k <= end <= self.idx@.len(),
                end == chunk_end(self@),
                self.idx@.map_values(|i: usize| i as int) == self@.indices,
                forall|m: int|
                    0 <= m < self@.indices.len() ==> 0 <= #[trigger] self@.indices[m]
                        < self@.lines.len(),
                self@.lines.len() == self.lines@.len(),
                strings_view(t@) == self@.indices.subrange(self.next as int, k as int).map_values(
                    |i: int| self@.lines[i],
                ),
            decreases end - k,
        {
            let li = self.idx[k];
            assert(self@.indices[k as int] == li as int);
            t.push(self.lines[li].clone());
            assert(self@.indices.subrange(self.next as int, k + 1).map_values(|i: int| self@.lines[i])
                =~= self@.indices.subrange(self.next as int, k as int).map_values(
                |i: int| self@.lines[i],
            ).push(self@.lines[li as int]));
            k = k + 1;
        }
        Some(t)
    }

    /// Takes the response to the pending request: the translated lines, and the languages
    /// it reports, in order. A count that differs from the lines sent is an error whose
    /// message names `who`.
    pub fn accept(self, translated: Vec<String>, langs: Vec<String>, who: &str) -> (r: Result<
        BatchJob,
        TranslateError,
    >)
        requires
            self@.next < self@.indices.len(),
        ensures
            translated@.len() != chunk_end(self@) - self@.next ==> (r matches Err(e) && e@
                == TranslateErrorView::Unexpected(
                count_message(
                    who@,
                    translated@.len() as nat,
                    (chunk_end(self@) - self@.next) as nat,
                ),
            )),
            translated@.len() == chunk_end(self@) - self@.next ==> (r matches Ok(j) && {
                &&& j@.lines == self@.lines
                &&& j@.indices == self@.indices
                &&& j@.batch == self@.batch
                &&& j@.next == chunk_end(self@)
                &&& j@.received == self@.received + strings_view(translated@)
                &&& filled(j@)
                &&& j@.source == pick_source(self@.source, strings_view(langs@))
                &&& j@.out == Seq::new(
                    self@.out.len(),
                    |i: int|
                        if exists|k: int| self@.next <= k < chunk_end(self@) && self@.indices[k] == i {
                            translated@[(choose|k: int|
                                self@.next <= k < chunk_end(self@) && self@.indices[k]
                                    == i) - self@.next]@
                        } else {
                            self@.out[i]
                        },
                )
            }),
    {
        proof {
            use_type_invariant(&self);
            lemma_nonblank_indices(strings_view(self.lines@));
        }
        let BatchJob { lines, idx, mut out, next, batch, mut source, received } = self;
        let ghost pre = BatchJobView {
            lines: strings_view(lines@),
            indices: idx@.map_values(|i: usize| i as int),
            next: next as int,
            batch: batch as int,
            out: strings_view(out@),
            source: source@,
            received: received@,
        };
        let end = if batch <= idx.len() - next {
            next + batch
        } else {
            idx.len()
        };
        let want = end - next;
        if translated.len() != want {
            let mut msg = String::from_str(who);
            msg.append(" devolveu ");
            push_decimal(&mut msg, translated.len() as u128);
            msg.append(" de ");
            push_decimal(&mut msg, want as u128);
            msg.append(" linhas");
            return Err(TranslateError::Unexpected(msg));
        }
        proof {
            assert forall|m: int| 0 <= m < idx@.len() implies 0 <= #[trigger] idx@[m] < out@.len() by {
                assert(pre.indices[m] == idx@[m] as int);
            }
            assert forall|a: int, b: int| 0 <= a < b < idx@.len() implies idx@[a] < idx@[b] by {
                assert(pre.indices[a] == idx@[a] as int);
                assert(pre.indices[b] == idx@[b] as int);
            }
        }
        let mut j: usize = 0;
        while j < want
            invariant
                j <= want == end - next,
                end == chunk_end(pre),
                next < end <= idx@.len(),
                translated@.len() == want,
                pre.indices == idx@.map_values(|i: usize| i as int),
                forall|m: int| 0 <= m < idx@.len() ==> 0 <= #[trigger] idx@[m] < out@.len(),
                forall|a: int, b: int| 0 <= a < b < idx@.len() ==> idx@[a] < idx@[b],
                out@.len() == pre.out.len(),
                forall|i: int|
                    0 <= i < out@.len() ==> #[trigger] strings_view(out@)[i] == if exists|k: int|
                        next <= k < next + j && pre.indices[k] == i {
                        translated@[(choose|k: int| next <= k < next + j && pre.indices[k] == i)
                            - next]@
                    } else {
                        pre.out[i]
                    },
            decreases want - j,
        {
            let li = idx[next + j];
            let ghost before = strings_view(out@);
            out.set(li, translated[j].clone());
            proof {
                assert forall|i: int| 0 <= i < out@.len() implies #[trigger] strings_view(out@)[i]
                    == if exists|k: int| next <= k < next + j + 1 && pre.indices[k] == i {
                    translated@[(choose|k: int| next <= k < next + j + 1 && pre.indices[k] == i)
                        - next]@
                } else {
                    pre.out[i]
                } by {
                    if i == li as int {
                        assert(pre.indices[next + j] == i);
                        let k = choose|k: int| next <= k < next + j + 1 && pre.indices[k] == i;
                        if k != next + j {
                            if k < next + j {
                                assert(idx@[k] < idx@[next + j]);
                            }
                        }
                    } else {
                        assert(strings_view(out@)[i] == before[i]);
                        if exists|k: int| next <= k < next + j + 1 && pre.indices[k] == i {
                            let k = choose|k: int| next <= k < next + j + 1 && pre.indices[k] == i;
                            assert(k != next + j);
                            assert(exists|k2: int| next <= k2 < next + j && pre.indices[k2] == i);
                        }
                    }
                }
            }
            j = j + 1;
        }
        // the language
        let mut q: usize = 0;
        let ghost lv = strings_view(langs@);
        assert(lv.skip(0) =~= lv);
        while q < langs.len()
            invariant
                q <= langs@.len(),
                lv == strings_view(langs@),
                pick_source(pre.source, lv) == pick_source(source@, lv.skip(q as int)),
            decreases langs@.len() - q,
        {
            assert(lv.skip(q as int).drop_first() =~= lv.skip(q + 1));
            assert(lv.skip(q as int)[0] == langs@[q as int]@);
            if source.as_str().is_empty() {
                source = langs[q].clone();
            }
            q = q + 1;
        }
        assert(lv.skip(q as int) =~= Seq::<Seq<char>>::empty());
        let ghost new_received = received@ + strings_view(translated@);
        let ghost jv = BatchJobView {
            lines: strings_view(lines@),
            indices: idx@.map_values(|i: usize| i as int),
            next: end as int,
            batch: batch as int,
            out: strings_view(out@),
            source: source@,
            received: new_received,
        };
        proof {
            assert(jv.out =~= Seq::new(
                pre.out.len(),
                |i: int|
                    if exists|k: int| pre.next <= k < chunk_end(pre) && pre.indices[k] == i {
                        translated@[(choose|k: int|
                            pre.next <= k < chunk_end(pre) && pre.indices[k] == i) - pre.next]@
                    } else {
                        pre.out[i]
                    },
            ));
            assert forall|k: int| 0 <= k < jv.next implies #[trigger] jv.out[jv.indices[k]]
                == jv.received[k] by {
                if k < pre.next {
                    assert(jv.out[pre.indices[k]] == pre.out[pre.indices[k]]) by {
                        if exists|k2: int|
                            pre.next <= k2 < chunk_end(pre) && pre.indices[k2] == pre.indices[k] {
                            let k2 = choose|k2: int|
                                pre.next <= k2 < chunk_end(pre) && pre.indices[k2] == pre.indices[k];
                            assert(idx@[k] < idx@[k2]);
                        }
                    }
                } else {
                    let i = pre.indices[k];
                    assert(pre.next <= k < chunk_end(pre) && pre.indices[k] == i);
                    let k2 = choose|k2: int| pre.next <= k2 < chunk_end(pre) && pre.indices[k2] == i;
                    if k2 < k {
                        assert(idx@[k2] < idx@[k]);
                    } else if k < k2 {
                        assert(idx@[k] < idx@[k2]);
                    }
                    assert(jv.received[k] == translated@[k - pre.next]@);
                }
            }
            assert forall|i: int|
                0 <= i < jv.out.len() && !(exists|k: int| 0 <= k < jv.next && jv.indices[k] == i)
                    implies #[trigger] jv.out[i] == Seq::<char>::empty() by {
                if exists|k: int| pre.next <= k < chunk_end(pre) && pre.indices[k] == i {
                    let k = choose|k: int| pre.next <= k < chunk_end(pre) && pre.indices[k] == i;
                    assert(0 <= k < jv.next && jv.indices[k] == i);
                }
                if exists|k: int| 0 <= k < pre.next && pre.indices[k] == i {
                    let k = choose|k: int| 0 <= k < pre.next && pre.indices[k] == i;
                    assert(0 <= k < jv.next && jv.indices[k] == i);
                }
            }
            assert(filled(jv));
        }
        let r = BatchJob { lines, idx, out, next: end, batch, source, received: Ghost(new_received) };
        assert(r@ == jv);
        Ok(r)
    }

    /// The translated lines (empty where the line was blank) and the detected language.
    pub fn finish(self) -> (r: Translated)
        ensures
            strings_view(r.lines@) == self@.out,
            r.source_lang@ == self@.source,
            filled(self@),
            self@.indices == nonblank_indices(self@.lines),
            self@.next <= self@.indices.len(),
    {
        proof {
            use_type_invariant(&self);
        }
        Translated { lines: self.out, source_lang: self.source }
    }
}

/// Blank lines never reach the service: with only blank lines there is no request at all.
pub proof fn law_blank_lines_make_no_request(lines: Seq<Seq<char>>)
    requires
        forall|i: int| 0 <= i < lines.len() ==> is_blank(#[trigger] lines[i]),
    ensures
        nonblank_indices(lines).len() == 0,
{
    lemma_nonblank_indices(lines);
    if nonblank_indices(lines).len() > 0 {
        assert(!is_blank(lines[nonblank_indices(lines)[0]]));
    }
}

/// Each request carries at most `batch` lines and at least one, and the requests together
/// carry every non-blank line once, in order.
pub proof fn law_batches_cover_lines(j: BatchJobView)
    requires
        0 <= j.next < j.indices.len(),
        j.batch > 0,
    ensures
        0 < chunk_end(j) - j.next <= j.batch,
        chunk_end(j) <= j.indices.len(),
        chunk_end(j) == j.indices.len() || chunk_end(j) - j.next == j.batch,
{
}

/// A completed job gives back exactly as many lines as it was given; blank lines come back
/// empty and every other line as the translation received for it.
pub proof fn law_result_aligned(j: BatchJobView)
    requires
        filled(j),
        j.indices == nonblank_indices(j.lines),
        j.next == j.indices.len(),
    ensures
        j.out.len() == j.lines.len(),
        forall|i: int| 0 <= i < j.lines.len() && is_blank(#[trigger] j.lines[i]) ==> j.out[i] == Seq::<
            char,
        >::empty(),
        forall|k: int| 0 <= k < j.indices.len() ==> #[trigger] j.out[j.indices[k]] == j.received[k],
{
    lemma_nonblank_indices(j.lines);
    assert forall|i: int| 0 <= i < j.lines.len() && is_blank(#[trigger] j.lines[i]) implies j.out[i]
        == Seq::<char>::empty() by {
        if exists|k: int| 0 <= k < j.next && j.indices[k] == i {
            let k = choose|k: int| 0 <= k < j.next && j.indices[k] == i;
            assert(!is_blank(j.lines[j.indices[k]]));
        }
    }
}

/// The language kept across responses is the first non-empty one ever reported: one already
/// detected is never replaced, and an empty one is replaced by the first non-empty language
/// of the response (or stays empty when the response has none).
pub proof fn law_first_language_kept(src: Seq<char>, langs: Seq<Seq<char>>)
    ensures
        src.len() > 0 ==> pick_source(src, langs) == src,
        src.len() == 0 ==> {
            ||| exists|i: int|
                0 <= i < langs.len() && langs[i].len() > 0 && (forall|j: int|
                    0 <= j < i ==> #[trigger] langs[j].len() == 0) && pick_source(src, langs)
                    == langs[i]
            ||| (forall|i: int| 0 <= i < langs.len() ==> #[trigger] langs[i].len() == 0)
                && pick_source(src, langs) == src
        },
    decreases langs.len(),
{
    if langs.len() > 0 {
        let rest = langs.drop_first();
        let next = if src.len() == 0 {
            langs[0]
        } else {
            src
        };
        law_first_language_kept(next, rest);
        if src.len() == 0 {
            if langs[0].len() > 0 {
                assert(pick_source(src, langs) == langs[0]);
            } else {
                if exists|i: int|
                    0 <= i < rest.len() && rest[i].len() > 0 && (forall|j: int|
                        0 <= j < i ==> #[trigger] rest[j].len() == 0) && pick_source(next, rest)
                        == rest[i] {
                    let i = choose|i: int|
                        0 <= i < rest.len() && rest[i].len() > 0 && (forall|j: int|
                            0 <= j < i ==> #[trigger] rest[j].len() == 0) && pick_source(next, rest)
                            == rest[i];
                    assert(langs[i + 1] == rest[i]);
                    assert forall|j: int| 0 <= j < i + 1 implies #[trigger] langs[j].len() == 0 by {
                        if j > 0 {
                            assert(langs[j] == rest[j - 1]);
                        }
                    }
                } else {
                    assert forall|i: int| 0 <= i < langs.len() implies #[trigger] langs[i].len()
                        == 0 by {
                        if i > 0 {
                            assert(langs[i] == rest[i - 1]);
                        }
                    }
                }
            }
        }
    }
}

} // verus!
