//! The remote-execution service of the VMs: the reply to a command, and
//! the framing of file transfers: a fixed-width decimal length before each
//! message, a cap on the size of a request, and the count of the bytes of
//! a pushed file.
use vstd::prelude::*;

verus! {

/// The width of the decimal length that precedes each message.
pub const TRANS_META_WIDTH: usize = 16;

/// The largest request a transfer accepts, in bytes.
pub const MAX_REQ_SIZE: usize = 4096;

/// The largest buffer a pushed file is received into: 16 MB.
pub const SIZE_16MB: usize = 16777216;

/// The reply to a request.
pub struct Resp {
    /// The exit code of the command; -1 where there is none.
    pub code: i32,
    /// What the command printed on stdout, or a message.
    pub stdout: String,
    /// What the command printed on stderr, or why it failed.
    pub stderr: String,
    /// The size of the file that follows, for a fetch.
    pub file_size: usize,
}

/// A `Resp` in terms of text.
pub struct RespView {
    /// The exit code.
    pub code: i32,
    /// The output.
    pub stdout: Seq<char>,
    /// The error output.
    pub stderr: Seq<char>,
    /// The size of the file that follows.
    pub file_size: usize,
}

impl View for Resp {
    type V = RespView;

    open spec fn view(&self) -> RespView {
        RespView {
            code: self.code,
            stdout: self.stdout@,
            stderr: self.stderr@,
            file_size: self.file_size,
        }
    }
}

impl Default for Resp {
    fn default() -> (res: Resp)
        ensures
            res@ == (RespView { code: 0, stdout: Seq::empty(), stderr: Seq::empty(), file_size: 0 }),
    {
        Resp { code: 0, stdout: String::new(), stderr: String::new(), file_size: 0 }
    }
}

impl Resp {
    /// The reply to a command that ran: code 0 and its output where it
    /// succeeded; its exit code (-1 where it has none, as when a signal
    /// ended it) and its error output where it failed.
    pub fn from_run(success: bool, exit_code: Option<i32>, stdout: String, stderr: String) -> (res: Resp)
        ensures
            success ==> res@ == (RespView {
                code: 0,
                stdout: stdout@,
                stderr: Seq::empty(),
                file_size: 0,
            }),
            !success ==> res@ == (RespView {
                code: match exit_code {
                    Some(c) => c,
                    None => -1i32,
                },
                stdout: Seq::empty(),
                stderr: stderr@,
                file_size: 0,
            }),
    {
        if success {
            Resp { code: 0, stdout, stderr: String::new(), file_size: 0 }
        } else {
            let code = match exit_code {
                Some(c) => c,
                None => -1,
            };
            Resp { code, stdout: String::new(), stderr, file_size: 0 }
        }
    }

    /// The reply to a request that failed before it ran: code -1 and why.
    pub fn failure(log: String) -> (res: Resp)
        ensures
            res@ == (RespView { code: -1i32, stdout: Seq::empty(), stderr: log@, file_size: 0 }),
    {
        Resp { code: -1, stdout: String::new(), stderr: log, file_size: 0 }
    }

    /// The reply that a pushed file was stored.
    pub fn stored() -> (res: Resp)
        ensures
            res@ == (RespView { code: 0, stdout: "Success!"@, stderr: Seq::empty(), file_size: 0 }),
    {
        Resp { code: 0, stdout: "Success!".to_owned(), stderr: String::new(), file_size: 0 }
    }

    /// The reply that a fetched file of `file_size` bytes follows.
    pub fn sending(file_size: usize) -> (res: Resp)
        ensures
            res@ == (RespView {
                code: 0,
                stdout: "Request received! sending file..."@,
                stderr: Seq::empty(),
                file_size,
            }),
    {
        Resp {
            code: 0,
            stdout: "Request received! sending file...".to_owned(),
            stderr: String::new(),
            file_size,
        }
    }
}

/// Why a number could not be read (as `IntErrorKind` tells).
#[derive(Clone, Copy, Debug, PartialEq, Eq, Structural)]
pub enum NumError {
    /// Nothing to read.
    Empty,
    /// A character that is not a digit.
    InvalidDigit,
    /// More than a `usize` holds.
    Overflow,
}

/// Why a transfer stops.
#[derive(Clone, Copy, Debug, PartialEq, Eq, Structural)]
pub enum TransError {
    /// The length before the request is not a number.
    BadMeta(NumError),
    /// The request is longer than `MAX_REQ_SIZE`.
    TooLarge,
    /// The peer stopped sending before the declared size was reached.
    Truncated {
        /// The size the request declared.
        declared: usize,
        /// The bytes received before the peer stopped.
        received: usize,
    },
}

/// The byte of a decimal digit.
pub open spec fn digit_byte(d: nat) -> u8 {
    (48 + d) as u8
}

/// Whether `b` is the byte of a decimal digit.
pub open spec fn is_digit_byte(b: u8) -> bool {
    48 <= b <= 57
}

/// The decimal text of `n` as bytes.
pub open spec fn decimal_bytes(n: nat) -> Seq<u8>
    decreases n,
{
    if n < 10 {
        seq![digit_byte(n)]
    } else {
        decimal_bytes(n / 10).push(digit_byte(n % 10))
    }
}

/// The decimal text of `n` as bytes, zero-padded to `width`.
pub open spec fn meta_bytes(n: nat, width: nat) -> Seq<u8> {
    let d = decimal_bytes(n);
    if d.len() >= width {
        d
    } else {
        Seq::new((width - d.len()) as nat, |i: int| 48u8) + d
    }
}

/// Reads the digits `s` after a value `acc` read so far, left to right;
/// stops at the first byte that is not a digit, or when the value passes
/// `usize::MAX`.
pub open spec fn read_digits(s: Seq<u8>, acc: nat) -> Result<nat, NumError>
    decreases s.len(),
{
    if s.len() == 0 {
        Ok(acc)
    } else if !is_digit_byte(s[0]) {
        Err(NumError::InvalidDigit)
    } else {
        let a = acc * 10 + (s[0] - 48);
        if a > usize::MAX {
            Err(NumError::Overflow)
        } else {
            read_digits(s.skip(1), a as nat)
        }
    }
}

/// What `usize::from_str` makes of the text `s`: an optional `+`, then
/// one or more decimal digits whose value fits in a `usize`.
pub open spec fn parse_usize(s: Seq<u8>) -> Result<nat, NumError> {
    if s.len() == 0 {
        Err(NumError::Empty)
    } else {
        let body = if s[0] == 43 { s.skip(1) } else { s };
        if body.len() == 0 {
            Err(NumError::InvalidDigit)
        } else {
            read_digits(body, 0)
        }
    }
}

fn push_decimal_bytes(v: &mut Vec<u8>, n: usize)
    ensures
        final(v)@ == old(v)@ + decimal_bytes(n as nat),
    decreases n,
{
    let ghost start = v@;
    if n >= 10 {
        push_decimal_bytes(v, n / 10);
    }
    v.push((48 + (n % 10)) as u8);
    proof {
        if n >= 10 {
            assert(v@ =~= start + decimal_bytes((n / 10) as nat).push(digit_byte((n % 10) as nat)));
        } else {
            assert(v@ =~= start + seq![digit_byte(n as nat)]);
        }
    }
}

/// The length `n` as it is sent before a message: its decimal digits,
/// zero-padded to `TRANS_META_WIDTH`.
pub fn encode_meta(n: usize) -> (res: Vec<u8>)
    ensures
        res@ == meta_bytes(n as nat, TRANS_META_WIDTH as nat),
{
    let mut d: Vec<u8> = Vec::new();
    push_decimal_bytes(&mut d, n);
    assert(d@ =~= decimal_bytes(n as nat));
    let mut res: Vec<u8> = Vec::new();
    if d.len() < TRANS_META_WIDTH {
        let pad = TRANS_META_WIDTH - d.len();
        let mut k: usize = 0;
        while k < pad
            invariant
                k <= pad,
                res@ == Seq::new(k as nat, |i: int| 48u8),
            decreases pad - k,
        {
            res.push(48u8);
            k = k + 1;
            assert(res@ =~= Seq::new(k as nat, |i: int| 48u8));
        }
    }
    let mut i: usize = 0;
    let ghost padding = res@;
    while i < d.len()
        invariant
            i <= d.len(),
            res@ == padding + d@.subrange(0, i as int),
        decreases d.len() - i,
    {
        res.push(d[i]);
        i = i + 1;
        assert(res@ =~= padding + d@.subrange(0, i as int));
    }
    assert(d@.subrange(0, d.len() as int) =~= d@);
    assert(res@ =~= meta_bytes(n as nat, TRANS_META_WIDTH as nat));
    res
}

/// Reads the length sent before a message, as `usize::from_str` reads
/// its text.
pub fn parse_meta(bytes: &[u8]) -> (res: Result<usize, NumError>)
    ensures
        match res {
            Ok(n) => parse_usize(bytes@) == Ok::<nat, NumError>(n as nat),
            Err(e) => parse_usize(bytes@) == Err::<nat, NumError>(e),
        },
{
    if bytes.len() == 0 {
        return Err(NumError::Empty);
    }
    let start: usize = if bytes[0] == 43 { 1 } else { 0 };
    if start == bytes.len() {
        return Err(NumError::InvalidDigit);
    }
    let ghost body = if bytes@[0] == 43 { bytes@.skip(1) } else { bytes@ };
    assert(body =~= bytes@.skip(start as int));
    assert(parse_usize(bytes@) == read_digits(body, 0));
    let mut acc: usize = 0;
    let mut i: usize = start;
    while i < bytes.len()
        invariant
            start <= i <= bytes.len(),
            body == bytes@.skip(start as int),
            parse_usize(bytes@) == read_digits(body, 0),
            read_digits(body, 0) == read_digits(bytes@.skip(i as int), acc as nat),
        decreases bytes.len() - i,
    {
        let b = bytes[i];
        assert(bytes@.skip(i as int)[0] == b);
        assert(bytes@.skip(i as int).skip(1) =~= bytes@.skip(i + 1));
        assert(bytes@.skip(i as int).len() > 0);
        if b < 48 || b > 57 {
            assert(read_digits(bytes@.skip(i as int), acc as nat) == Err::<nat, NumError>(
                NumError::InvalidDigit,
            ));
            return Err(NumError::InvalidDigit);
        }
        let d = (b - 48) as usize;
        match acc.checked_mul(10) {
            Some(m) => match m.checked_add(d) {
                Some(a) => {
                    acc = a;
                },
                None => {
                    assert(read_digits(bytes@.skip(i as int), acc as nat) == Err::<nat, NumError>(
                        NumError::Overflow,
                    ));
                    return Err(NumError::Overflow);
                },
            },
            None => {
                assert(acc * 10 + d > usize::MAX) by (nonlinear_arith)
                    requires acc * 10 > usize::MAX, d >= 0;
                assert(read_digits(bytes@.skip(i as int), acc as nat) == Err::<nat, NumError>(
                    NumError::Overflow,
                ));
                return Err(NumError::Overflow);
            },
        }
        i = i + 1;
    }
    assert(bytes@.skip(bytes.len() as int) =~= Seq::<u8>::empty());
    Ok(acc)
}

/// Refuses a request longer than `MAX_REQ_SIZE` bytes.
pub fn check_req_size(size: usize) -> (res: Result<usize, TransError>)
    ensures
        size > MAX_REQ_SIZE ==> res == Err::<usize, TransError>(TransError::TooLarge),
        size <= MAX_REQ_SIZE ==> res == Ok::<usize, TransError>(size),
{
    if size > MAX_REQ_SIZE {
        Err(TransError::TooLarge)
    } else {
        Ok(size)
    }
}

/// The size of the buffer a pushed file of `size` bytes is received into:
/// the size itself, at most 16 MB.
pub fn push_buffer_size(size: usize) -> (res: usize)
    ensures
        res == if size > SIZE_16MB { SIZE_16MB } else { size },
{
    if size > SIZE_16MB {
        SIZE_16MB
    } else {
        size
    }
}

/// The message a transfer error is reported with.
pub open spec fn trans_error_message(e: TransError) -> Seq<char> {
    match e {
        TransError::BadMeta(NumError::Empty) => "cannot parse integer from empty string"@,
        TransError::BadMeta(NumError::InvalidDigit) => "invalid digit found in string"@,
        TransError::BadMeta(NumError::Overflow) => "number too large to fit in target type"@,
        TransError::TooLarge => "Maybe an appack!"@,
        TransError::Truncated { declared, received } => "declared_size: "@ + crate::text::decimal(
            declared as nat,
        ) + ", recvd: "@ + crate::text::decimal(received as nat),
    }
}

impl TransError {
    /// The message the error is reported with.
    pub fn message(&self) -> (res: String)
        ensures
            res@ == trans_error_message(*self),
    {
        match self {
            TransError::BadMeta(NumError::Empty) => "cannot parse integer from empty string".to_owned(),
            TransError::BadMeta(NumError::InvalidDigit) => "invalid digit found in string".to_owned(),
            TransError::BadMeta(NumError::Overflow) => "number too large to fit in target type".to_owned(),
            TransError::TooLarge => "Maybe an appack!".to_owned(),
            TransError::Truncated { declared, received } => {
                let mut s = String::new();
                s.append("declared_size: ");
                crate::text::push_decimal(&mut s, *declared as u64);
                s.append(", recvd: ");
                crate::text::push_decimal(&mut s, *received as u64);
                assert(s@ =~= trans_error_message(*self));
                s
            },
        }
    }
}

/// How far a pushed file has come: the size the request declared and the
/// bytes still to come.
pub struct PushProgress {
    declared: usize,
    remaining: usize,
}

/// A `PushProgress` in numbers.
pub struct PushProgressView {
    /// The declared size.
    pub declared: nat,
    /// The bytes still to come.
    pub remaining: nat,
}

impl View for PushProgress {
    type V = PushProgressView;

    closed spec fn view(&self) -> PushProgressView {
        PushProgressView { declared: self.declared as nat, remaining: self.remaining as nat }
    }
}

/// What one `recv` of `n` bytes does to a transfer: 0 bytes means the peer
/// stopped early, which fails it; any other count is taken off what is
/// still to come.
pub open spec fn push_step(p: PushProgressView, n: nat) -> Result<PushProgressView, TransError> {
    if n == 0 {
        Err(
            TransError::Truncated {
                declared: p.declared as usize,
                received: (p.declared - p.remaining) as usize,
            },
        )
    } else {
        Ok(PushProgressView { declared: p.declared, remaining: (p.remaining - n) as nat })
    }
}

impl PushProgress {
    #[verifier::type_invariant]
    spec fn wf(self) -> bool {
        self.remaining <= self.declared
    }

    /// A transfer of `declared` bytes, none received yet.
    pub fn new(declared: usize) -> (res: PushProgress)
        ensures
            res@ == (PushProgressView { declared: declared as nat, remaining: declared as nat }),
    {
        PushProgress { declared, remaining: declared }
    }

    /// The bytes still to come.
    pub fn remaining(&self) -> (res: usize)
        ensures
            res as nat == self@.remaining,
    {
        self.remaining
    }

    /// The bytes received so far.
    pub fn received(&self) -> (res: usize)
        ensures
            res as nat == self@.declared - self@.remaining,
            self@.remaining <= self@.declared,
    {
        proof {
            use_type_invariant(self);
        }
        self.declared - self.remaining
    }

    /// Whether every declared byte has arrived.
    pub fn is_done(&self) -> (res: bool)
        ensures
            res == (self@.remaining == 0),
    {
        self.remaining == 0
    }

    /// Takes in a `recv` of `n` bytes (at most what is still to come): 0
    /// fails the transfer and leaves it as it was; any other count is taken
    /// off what is still to come.
    pub fn on_recv(&mut self, n: usize) -> (res: Result<(), TransError>)
        requires
            n <= old(self)@.remaining,
        ensures
            match push_step(old(self)@, n as nat) {
                Ok(p) => res is Ok && final(self)@ == p,
                Err(e) => res == Err::<(), TransError>(e) && final(self)@ == old(self)@,
            },
    {
        proof {
            use_type_invariant(&*self);
        }
        if n == 0 {
            return Err(
                TransError::Truncated {
                    declared: self.declared,
                    received: self.declared - self.remaining,
                },
            );
        }
        self.remaining = self.remaining - n;
        Ok(())
    }
}

/// One more byte `b` after a value `v`: a digit makes `10 * v` plus it,
/// unless that passes `usize::MAX`.
pub open spec fn digit_step(v: nat, b: u8) -> Result<nat, NumError> {
    if !is_digit_byte(b) {
        Err(NumError::InvalidDigit)
    } else if v * 10 + (b - 48) > usize::MAX {
        Err(NumError::Overflow)
    } else {
        Ok((v * 10 + (b - 48)) as nat)
    }
}

proof fn lemma_read_digits_push(t: Seq<u8>, acc: nat, v: nat, b: u8)
    requires
        read_digits(t, acc) == Ok::<nat, NumError>(v),
    ensures
        read_digits(t.push(b), acc) == digit_step(v, b),
    decreases t.len(),
{
    let s = t.push(b);
    if t.len() == 0 {
        assert(v == acc);
        assert(s.skip(1) =~= Seq::<u8>::empty());
        assert(s[0] == b);
        if is_digit_byte(b) && acc * 10 + (b - 48) <= usize::MAX {
            assert(read_digits(s.skip(1), (acc * 10 + (b - 48)) as nat) == Ok::<nat, NumError>(
                (acc * 10 + (b - 48)) as nat,
            ));
        }
    } else {
        let a = acc * 10 + (t[0] - 48);
        assert(s[0] == t[0]);
        assert(s.skip(1) =~= t.skip(1).push(b));
        assert(is_digit_byte(t[0]));
        assert(a <= usize::MAX);
        assert(read_digits(t.skip(1), a as nat) == Ok::<nat, NumError>(v));
        lemma_read_digits_push(t.skip(1), a as nat, v, b);
        assert(read_digits(s, acc) == read_digits(s.skip(1), a as nat));
    }
}

proof fn lemma_read_decimal(n: nat)
    requires
        n <= usize::MAX,
    ensures
        read_digits(decimal_bytes(n), 0) == Ok::<nat, NumError>(n),
    decreases n,
{
    if n < 10 {
        let s = decimal_bytes(n);
        assert(s == seq![digit_byte(n)]);
        assert(s.skip(1) =~= Seq::<u8>::empty());
        assert(s[0] == (48 + n) as u8);
        assert(s[0] - 48 == n);
        assert(read_digits(s.skip(1), n) == Ok::<nat, NumError>(n));
    } else {
        lemma_read_decimal(n / 10);
        let b = digit_byte(n % 10);
        lemma_read_digits_push(decimal_bytes(n / 10), 0, n / 10, b);
        assert(b - 48 == n % 10);
        assert((n / 10) * 10 + n % 10 == n);
    }
}

proof fn lemma_read_zeros(k: nat, t: Seq<u8>)
    ensures
        read_digits(Seq::new(k, |i: int| 48u8) + t, 0) == read_digits(t, 0),
    decreases k,
{
    if k > 0 {
        let s = Seq::new(k, |i: int| 48u8) + t;
        assert(s[0] == 48u8);
        assert(s.skip(1) =~= Seq::new((k - 1) as nat, |i: int| 48u8) + t);
        lemma_read_zeros((k - 1) as nat, t);
    } else {
        assert(Seq::new(k, |i: int| 48u8) + t =~= t);
    }
}

/// The length a sender frames a message with is the length the receiver
/// reads back: reading the zero-padded decimal text of `n`, whatever the
/// width, gives `n`.
pub proof fn law_meta_round_trip(n: usize, width: nat)
    ensures
        parse_usize(meta_bytes(n as nat, width)) == Ok::<nat, NumError>(n as nat),
{
    let d = decimal_bytes(n as nat);
    lemma_read_decimal(n as nat);
    let s = meta_bytes(n as nat, width);
    assert(d.len() > 0) by {
        reveal_with_fuel(decimal_bytes, 2);
    }
    if d.len() >= width {
        assert(s == d);
    } else {
        lemma_read_zeros((width - d.len()) as nat, d);
    }
    assert(s.len() > 0);
    assert(s[0] != 43u8) by {
        if d.len() >= width {
            lemma_decimal_bytes_digits(n as nat);
            assert(is_digit_byte(d[0]));
        } else {
            assert(s[0] == 48u8);
        }
    }
}

proof fn lemma_decimal_bytes_digits(n: nat)
    ensures
        forall|i: int| 0 <= i < decimal_bytes(n).len() ==> is_digit_byte(#[trigger] decimal_bytes(n)[i]),
    decreases n,
{
    if n >= 10 {
        lemma_decimal_bytes_digits(n / 10);
        let p = decimal_bytes(n / 10);
        assert forall|i: int| 0 <= i < decimal_bytes(n).len() implies is_digit_byte(#[trigger] decimal_bytes(n)[i]) by {
            if i < p.len() {
                assert(decimal_bytes(n)[i] == p[i]);
            }
        }
    }
}

/// Where a transfer goes through the counts `chunks` of successive
/// `recv`s, starting at `p`: the state it ends in, or the first error.
pub open spec fn push_run(p: PushProgressView, chunks: Seq<nat>) -> Result<PushProgressView, TransError>
    decreases chunks.len(),
{
    if chunks.len() == 0 {
        Ok(p)
    } else {
        match push_step(p, chunks[0]) {
            Ok(q) => push_run(q, chunks.skip(1)),
            Err(e) => Err(e),
        }
    }
}

/// The sum of `chunks`.
pub open spec fn total(chunks: Seq<nat>) -> nat
    decreases chunks.len(),
{
    if chunks.len() == 0 {
        0
    } else {
        chunks[0] + total(chunks.skip(1))
    }
}

/// A pushed file is complete exactly when the bytes received add up to
/// the declared size: `recv`s of non-zero counts that sum to `declared`
/// leave nothing to come.
pub proof fn law_push_completes(declared: nat, chunks: Seq<nat>)
    requires
        forall|i: int| 0 <= i < chunks.len() ==> #[trigger] chunks[i] > 0,
        total(chunks) == declared,
    ensures
        push_run(PushProgressView { declared, remaining: declared }, chunks) == Ok::<PushProgressView, TransError>(
            PushProgressView { declared, remaining: 0 },
        ),
{
    lemma_push_run_nonzero(declared, declared, chunks);
}

proof fn lemma_push_run_nonzero(declared: nat, remaining: nat, chunks: Seq<nat>)
    requires
        forall|i: int| 0 <= i < chunks.len() ==> #[trigger] chunks[i] > 0,
        total(chunks) == remaining,
    ensures
        push_run(PushProgressView { declared, remaining }, chunks) == Ok::<PushProgressView, TransError>(
            PushProgressView { declared, remaining: 0 },
        ),
    decreases chunks.len(),
{
    if chunks.len() > 0 {
        let rest = chunks.skip(1);
        assert forall|i: int| 0 <= i < rest.len() implies #[trigger] rest[i] > 0 by {
            assert(rest[i] == chunks[i + 1]);
        }
        lemma_push_run_nonzero(declared, (remaining - chunks[0]) as nat, rest);
    }
}

/// A peer that stops early fails the transfer, and the failure tells how
/// much arrived: non-zero counts summing to `got` below `declared`, then a
/// `recv` of nothing, end in `Truncated` with `got` bytes received.
pub proof fn law_push_truncated(declared: nat, chunks: Seq<nat>)
    requires
        forall|i: int| 0 <= i < chunks.len() ==> #[trigger] chunks[i] > 0,
        total(chunks) < declared,
        declared <= usize::MAX,
    ensures
        push_run(PushProgressView { declared, remaining: declared }, chunks.push(0)) == Err::<
            PushProgressView,
            TransError,
        >(TransError::Truncated { declared: declared as usize, received: total(chunks) as usize }),
{
    lemma_push_run_truncated(declared, declared, chunks);
}

proof fn lemma_push_run_truncated(declared: nat, remaining: nat, chunks: Seq<nat>)
    requires
        forall|i: int| 0 <= i < chunks.len() ==> #[trigger] chunks[i] > 0,
        total(chunks) < remaining,
        remaining <= declared,
    ensures
        push_run(PushProgressView { declared, remaining }, chunks.push(0)) == Err::<
            PushProgressView,
            TransError,
        >(TransError::Truncated {
            declared: declared as usize,
            received: (declared - remaining + total(chunks)) as usize,
        }),
    decreases chunks.len(),
{
    let c = chunks.push(0);
    if chunks.len() == 0 {
        assert(c[0] == 0);
    } else {
        let rest = chunks.skip(1);
        assert(c[0] == chunks[0]);
        assert(c.skip(1) =~= rest.push(0));
        assert forall|i: int| 0 <= i < rest.len() implies #[trigger] rest[i] > 0 by {
            assert(rest[i] == chunks[i + 1]);
        }
        lemma_push_run_truncated(declared, (remaining - chunks[0]) as nat, rest);
    }
}

/// The threads of the pool that serves the connections: one per CPU, and
/// never fewer than 4.
pub fn pool_size(cpu_num: usize) -> (res: usize)
    ensures
        res == if 4 > cpu_num { 4 } else { cpu_num },
{
    if 4 > cpu_num {
        4
    } else {
        cpu_num
    }
}

/// Which way a file goes.
#[derive(Clone, Copy, Debug, PartialEq, Eq, Structural)]
pub enum Direction {
    /// From the client to the VM.
    Push,
    /// From the VM to the client.
    Get,
}

/// Where a transfer connection stands.
pub enum TransferState {
    /// Waiting for the length of the request.
    AwaitMeta,
    /// Waiting for the request of `size` bytes.
    AwaitReq {
        /// The length of the request.
        size: usize,
    },
    /// Storing a pushed file.
    Pushing {
        /// How much of it has come.
        progress: PushProgress,
    },
    /// Waiting for the size of the file to send.
    AwaitFile,
    /// Over, whether it went well or not.
    Closed,
}

/// What the connection has just seen.
pub enum TransferEvent {
    /// The bytes of the length that precedes the request.
    Meta(Vec<u8>),
    /// The request, decoded.
    Req {
        /// Which way the file goes.
        drct: Direction,
        /// The size of a pushed file.
        file_size: usize,
    },
    /// The file to store is open.
    FileReady,
    /// A `recv` of file content returned this many bytes.
    Recv(usize),
    /// The file to send is open and has this many bytes.
    FileSize(usize),
}

/// What the server does next on the connection.
#[derive(Clone, Copy, Debug, PartialEq, Eq, Structural)]
pub enum TransferAction {
    /// Read the request, of this many bytes.
    RecvReq(usize),
    /// Create (or truncate) the target file, with a buffer of this many bytes.
    CreateFile(usize),
    /// Receive more file content into the buffer.
    RecvChunk,
    /// Write this many received bytes, then receive more.
    WriteThenRecv(usize),
    /// Write this many received bytes, then reply that the file is stored.
    WriteThenReply(usize),
    /// Reply that the file is stored.
    ReplyStored,
    /// Open the file to send and find its size.
    OpenForRead,
    /// Reply that a file of this size follows, then send it.
    SendFile(usize),
    /// Reply with this error and close.
    ReplyError(TransError),
    /// Close without a reply.
    Abort(TransError),
    /// The event does not fit the state: close.
    Stop,
}

/// A `TransferState` in numbers.
pub enum TransferStateView {
    /// Waiting for the length.
    AwaitMeta,
    /// Waiting for the request.
    AwaitReq(usize),
    /// Storing a pushed file.
    Pushing(PushProgressView),
    /// Waiting for the size of the file to send.
    AwaitFile,
    /// Over.
    Closed,
}

/// A `TransferEvent` in terms of bytes.
pub enum TransferEventView {
    /// The bytes of the length.
    Meta(Seq<u8>),
    /// The request.
    Req(Direction, usize),
    /// The file to store is open.
    FileReady,
    /// A `recv` returned this many bytes.
    Recv(usize),
    /// The file to send has this many bytes.
    FileSize(usize),
}

impl View for TransferState {
    type V = TransferStateView;

    open spec fn view(&self) -> TransferStateView {
        match self {
            TransferState::AwaitMeta => TransferStateView::AwaitMeta,
            TransferState::AwaitReq { size } => TransferStateView::AwaitReq(*size),
            TransferState::Pushing { progress } => TransferStateView::Pushing(progress@),
            TransferState::AwaitFile => TransferStateView::AwaitFile,
            TransferState::Closed => TransferStateView::Closed,
        }
    }
}

impl View for TransferEvent {
    type V = TransferEventView;

    open spec fn view(&self) -> TransferEventView {
        match self {
            TransferEvent::Meta(b) => TransferEventView::Meta(b@),
            TransferEvent::Req { drct, file_size } => TransferEventView::Req(*drct, *file_size),
            TransferEvent::FileReady => TransferEventView::FileReady,
            TransferEvent::Recv(n) => TransferEventView::Recv(*n),
            TransferEvent::FileSize(n) => TransferEventView::FileSize(*n),
        }
    }
}

/// The next state and action of a transfer connection in state `s` that
/// sees `e`. The length of the request is read as `usize::from_str` reads
/// it, and a bad one is answered; a request over `MAX_REQ_SIZE` bytes, and
/// a peer that stops before the declared size, close the connection
/// without a reply; the file of a push is received chunk by chunk until
/// the declared size has come, then the reply says it is stored; the file
/// of a get is announced by its size and then sent.
pub open spec fn transfer_next(s: TransferStateView, e: TransferEventView) -> (TransferStateView, TransferAction) {
    match (s, e) {
        (TransferStateView::AwaitMeta, TransferEventView::Meta(b)) => match parse_usize(b) {
            Err(k) => (TransferStateView::Closed, TransferAction::ReplyError(TransError::BadMeta(k))),
            Ok(n) => if n > MAX_REQ_SIZE {
                (TransferStateView::Closed, TransferAction::Abort(TransError::TooLarge))
            } else {
                (TransferStateView::AwaitReq(n as usize), TransferAction::RecvReq(n as usize))
            },
        },
        (TransferStateView::AwaitReq(_), TransferEventView::Req(Direction::Push, size)) => (
            TransferStateView::Pushing(PushProgressView { declared: size as nat, remaining: size as nat }),
            TransferAction::CreateFile(if size > SIZE_16MB { SIZE_16MB } else { size }),
        ),
        (TransferStateView::AwaitReq(_), TransferEventView::Req(Direction::Get, _)) => (
            TransferStateView::AwaitFile,
            TransferAction::OpenForRead,
        ),
        (TransferStateView::Pushing(p), TransferEventView::FileReady) => if p.remaining == 0 {
            (TransferStateView::Closed, TransferAction::ReplyStored)
        } else {
            (TransferStateView::Pushing(p), TransferAction::RecvChunk)
        },
        (TransferStateView::Pushing(p), TransferEventView::Recv(n)) => match push_step(p, n as nat) {
            Err(err) => (TransferStateView::Closed, TransferAction::Abort(err)),
            Ok(q) => if q.remaining == 0 {
                (TransferStateView::Closed, TransferAction::WriteThenReply(n))
            } else {
                (TransferStateView::Pushing(q), TransferAction::WriteThenRecv(n))
            },
        },
        (TransferStateView::AwaitFile, TransferEventView::FileSize(n)) => (
            TransferStateView::Closed,
            TransferAction::SendFile(n),
        ),
        _ => (TransferStateView::Closed, TransferAction::Stop),
    }
}

/// Whether a `recv` of `n` bytes fits the state: a push never gets more
/// than it still waits for, since its buffer is never larger.
pub open spec fn event_fits(s: TransferStateView, e: TransferEventView) -> bool {
    match (s, e) {
        (TransferStateView::Pushing(p), TransferEventView::Recv(n)) => n <= p.remaining,
        _ => true,
    }
}

/// The first action of a new connection: read the length of the request,
/// `TRANS_META_WIDTH` bytes at most.
pub fn transfer_start() -> (res: (TransferState, usize))
    ensures
        res.0@ == TransferStateView::AwaitMeta,
        res.1 == TRANS_META_WIDTH,
{
    (TransferState::AwaitMeta, TRANS_META_WIDTH)
}

/// Moves a transfer connection on by one event.
pub fn transfer_step(s: TransferState, e: TransferEvent) -> (res: (TransferState, TransferAction))
    requires
        event_fits(s@, e@),
    ensures
        (res.0@, res.1) == transfer_next(s@, e@),
{
    match (s, e) {
        (TransferState::AwaitMeta, TransferEvent::Meta(b)) => match parse_meta(b.as_slice()) {
            Err(k) => (TransferState::Closed, TransferAction::ReplyError(TransError::BadMeta(k))),
            Ok(n) => if n > MAX_REQ_SIZE {
                (TransferState::Closed, TransferAction::Abort(TransError::TooLarge))
            } else {
                (TransferState::AwaitReq { size: n }, TransferAction::RecvReq(n))
            },
        },
        (TransferState::AwaitReq { .. }, TransferEvent::Req { drct: Direction::Push, file_size }) => {
            let buf = push_buffer_size(file_size);
            (TransferState::Pushing { progress: PushProgress::new(file_size) }, TransferAction::CreateFile(buf))
        },
        (TransferState::AwaitReq { .. }, TransferEvent::Req { drct: Direction::Get, .. }) => {
            (TransferState::AwaitFile, TransferAction::OpenForRead)
        },
        (TransferState::Pushing { progress }, TransferEvent::FileReady) => {
            if progress.is_done() {
                (TransferState::Closed, TransferAction::ReplyStored)
            } else {
                (TransferState::Pushing { progress }, TransferAction::RecvChunk)
            }
        },
        (TransferState::Pushing { progress }, TransferEvent::Recv(n)) => {
            let mut progress = progress;
            match progress.on_recv(n) {
                Err(err) => (TransferState::Closed, TransferAction::Abort(err)),
                Ok(()) => if progress.is_done() {
                    (TransferState::Closed, TransferAction::WriteThenReply(n))
                } else {
                    (TransferState::Pushing { progress }, TransferAction::WriteThenRecv(n))
                },
            }
        },
        (TransferState::AwaitFile, TransferEvent::FileSize(n)) => {
            (TransferState::Closed, TransferAction::SendFile(n))
        },
        _ => (TransferState::Closed, TransferAction::Stop),
    }
}

/// The `recv` events of the counts `chunks`, in order.
pub open spec fn recv_events(chunks: Seq<usize>) -> Seq<TransferEventView> {
    chunks.map_values(|n: usize| TransferEventView::Recv(n))
}

/// The sum of the counts `chunks`.
pub open spec fn sum_counts(chunks: Seq<usize>) -> nat
    decreases chunks.len(),
{
    if chunks.len() == 0 {
        0
    } else {
        sum_counts(chunks.drop_last()) + (chunks.last() as nat)
    }
}

/// Where a transfer connection in state `s` ends after `events`, one after
/// the other, and the actions it takes on the way.
pub open spec fn transfer_run(s: TransferStateView, events: Seq<TransferEventView>) -> (
    TransferStateView,
    Seq<TransferAction>,
)
    decreases events.len(),
{
    if events.len() == 0 {
        (s, Seq::empty())
    } else {
        let (t, acts) = transfer_run(s, events.drop_last());
        let (u, a) = transfer_next(t, events.last());
        (u, acts.push(a))
    }
}

proof fn lemma_transfer_run_append(s: TransferStateView, a: Seq<TransferEventView>, b: Seq<TransferEventView>)
    ensures
        transfer_run(s, a + b) == (
            transfer_run(transfer_run(s, a).0, b).0,
            transfer_run(s, a).1 + transfer_run(transfer_run(s, a).0, b).1,
        ),
    decreases b.len(),
{
    if b.len() == 0 {
        assert(a + b =~= a);
        assert(transfer_run(s, a).1 + Seq::<TransferAction>::empty() =~= transfer_run(s, a).1);
    } else {
        assert((a + b).drop_last() =~= a + b.drop_last());
        assert((a + b).last() == b.last());
        lemma_transfer_run_append(s, a, b.drop_last());
        let mid = transfer_run(s, a);
        let r = transfer_run(mid.0, b.drop_last());
        let (u, x) = transfer_next(r.0, b.last());
        assert((mid.1 + r.1).push(x) =~= mid.1 + r.1.push(x));
    }
}

proof fn lemma_pushing_run(d: nat, r: nat, chunks: Seq<usize>)
    requires
        r <= d,
        forall|i: int| 0 <= i < chunks.len() ==> #[trigger] chunks[i] > 0,
        sum_counts(chunks) <= r,
    ensures
        sum_counts(chunks) < r ==> transfer_run(
            TransferStateView::Pushing(PushProgressView { declared: d, remaining: r }),
            recv_events(chunks),
        ) == (
            TransferStateView::Pushing(PushProgressView { declared: d, remaining: (r - sum_counts(chunks)) as nat }),
            chunks.map_values(|n: usize| TransferAction::WriteThenRecv(n)),
        ),
        sum_counts(chunks) == r && chunks.len() > 0 ==> transfer_run(
            TransferStateView::Pushing(PushProgressView { declared: d, remaining: r }),
            recv_events(chunks),
        ) == (
            TransferStateView::Closed,
            chunks.drop_last().map_values(|n: usize| TransferAction::WriteThenRecv(n)).push(
                TransferAction::WriteThenReply(chunks.last()),
            ),
        ),
    decreases chunks.len(),
{
    let start = TransferStateView::Pushing(PushProgressView { declared: d, remaining: r });
    if chunks.len() == 0 {
        assert(recv_events(chunks) =~= Seq::<TransferEventView>::empty());
        assert(chunks.map_values(|n: usize| TransferAction::WriteThenRecv(n)) =~= Seq::<TransferAction>::empty());
    } else {
        let front = chunks.drop_last();
        assert forall|i: int| 0 <= i < front.len() implies #[trigger] front[i] > 0 by {
            assert(front[i] == chunks[i]);
        }
        assert(chunks[chunks.len() - 1] > 0);
        lemma_pushing_run(d, r, front);
        assert(recv_events(chunks).drop_last() =~= recv_events(front));
        assert(recv_events(chunks).last() == TransferEventView::Recv(chunks.last()));
        let rem = (r - sum_counts(front)) as nat;
        assert(sum_counts(front) < r);
        assert(transfer_run(start, recv_events(front)).0 == TransferStateView::Pushing(
            PushProgressView { declared: d, remaining: rem },
        ));
        assert(chunks.map_values(|n: usize| TransferAction::WriteThenRecv(n)) =~= front.map_values(
            |n: usize| TransferAction::WriteThenRecv(n),
        ).push(TransferAction::WriteThenRecv(chunks.last())));
    }
}

/// A pushed file is taken in until every declared byte has come, whatever
/// its size, and only then is it reported stored: after a push request for
/// `size` bytes, the file is created with a buffer of at most 16 MB; while
/// the non-zero counts received add up to less than `size`, the transfer
/// stays open with all of `size` declared and the rest still to come, each
/// count written and more asked for; the count that completes `size` is
/// written and answered with the reply that the file is stored. An empty
/// file is reported stored at once.
pub proof fn law_push_stored_only_when_complete(req: usize, size: usize, chunks: Seq<usize>)
    requires
        forall|i: int| 0 <= i < chunks.len() ==> #[trigger] chunks[i] > 0,
        sum_counts(chunks) <= size,
    ensures
        size == 0 ==> transfer_run(
            TransferStateView::AwaitReq(req),
            seq![TransferEventView::Req(Direction::Push, size), TransferEventView::FileReady] + recv_events(chunks),
        ) == (TransferStateView::Closed, seq![TransferAction::CreateFile(0), TransferAction::ReplyStored]),
        size > 0 && sum_counts(chunks) < size ==> transfer_run(
            TransferStateView::AwaitReq(req),
            seq![TransferEventView::Req(Direction::Push, size), TransferEventView::FileReady] + recv_events(chunks),
        ) == (
            TransferStateView::Pushing(
                PushProgressView { declared: size as nat, remaining: (size - sum_counts(chunks)) as nat },
            ),
            seq![
                TransferAction::CreateFile(if size > SIZE_16MB { SIZE_16MB } else { size }),
                TransferAction::RecvChunk,
            ] + chunks.map_values(|n: usize| TransferAction::WriteThenRecv(n)),
        ),
        size > 0 && sum_counts(chunks) == size ==> transfer_run(
            TransferStateView::AwaitReq(req),
            seq![TransferEventView::Req(Direction::Push, size), TransferEventView::FileReady] + recv_events(chunks),
        ) == (
            TransferStateView::Closed,
            seq![
                TransferAction::CreateFile(if size > SIZE_16MB { SIZE_16MB } else { size }),
                TransferAction::RecvChunk,
            ] + chunks.drop_last().map_values(|n: usize| TransferAction::WriteThenRecv(n)).push(
                TransferAction::WriteThenReply(chunks.last()),
            ),
        ),
{
    let pre = seq![TransferEventView::Req(Direction::Push, size), TransferEventView::FileReady];
    let s0 = TransferStateView::AwaitReq(req);
    let buf = if size > SIZE_16MB { SIZE_16MB } else { size };
    let p = PushProgressView { declared: size as nat, remaining: size as nat };
    assert(pre.drop_last().drop_last() =~= Seq::<TransferEventView>::empty());
    assert(pre.drop_last() =~= seq![TransferEventView::Req(Direction::Push, size)]);
    assert(transfer_run(s0, pre.drop_last()) == (
        TransferStateView::Pushing(p),
        seq![TransferAction::CreateFile(buf)],
    )) by {
        assert(transfer_run(s0, pre.drop_last().drop_last()) == (s0, Seq::<TransferAction>::empty()));
        assert(Seq::<TransferAction>::empty().push(TransferAction::CreateFile(buf)) =~= seq![
            TransferAction::CreateFile(buf),
        ]);
    }
    lemma_transfer_run_append(s0, pre, recv_events(chunks));
    if size == 0 {
        if chunks.len() > 0 {
            lemma_sum_positive(chunks);
        }
        assert(chunks.len() == 0);
        assert(recv_events(chunks) =~= Seq::<TransferEventView>::empty());
        assert(pre + recv_events(chunks) =~= pre);
        assert(seq![TransferAction::CreateFile(buf)].push(TransferAction::ReplyStored) =~= seq![
            TransferAction::CreateFile(0),
            TransferAction::ReplyStored,
        ]);
    } else {
        assert(transfer_run(s0, pre) == (
            TransferStateView::Pushing(p),
            seq![TransferAction::CreateFile(buf), TransferAction::RecvChunk],
        )) by {
            assert(seq![TransferAction::CreateFile(buf)].push(TransferAction::RecvChunk) =~= seq![
                TransferAction::CreateFile(buf),
                TransferAction::RecvChunk,
            ]);
        }
        lemma_pushing_run(size as nat, size as nat, chunks);
        if sum_counts(chunks) == size {
            if chunks.len() == 0 {
                assert(sum_counts(chunks) == 0);
            }
            let w = chunks.drop_last().map_values(|n: usize| TransferAction::WriteThenRecv(n));
            let x = TransferAction::WriteThenReply(chunks.last());
            let h = seq![TransferAction::CreateFile(buf), TransferAction::RecvChunk];
            assert(h + w.push(x) =~= (h + w).push(x));
        }
    }
}

proof fn lemma_sum_positive(chunks: Seq<usize>)
    requires
        chunks.len() > 0,
        forall|i: int| 0 <= i < chunks.len() ==> #[trigger] chunks[i] > 0,
    ensures
        sum_counts(chunks) > 0,
{
    assert(chunks[chunks.len() - 1] > 0);
}

} // verus!
