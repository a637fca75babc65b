//! Records of derived packaging metadata, their derivation and their JSON text.
use vstd::prelude::*;

verus! {

/// What serde_json writes for a JSON string value: the text quoted and escaped.
pub uninterp spec fn json_string_of(s: Seq<char>) -> Seq<char>;

/// Relies on chrono's `Utc::now` and `DateTime::timestamp`: the seconds since
/// the Unix epoch. `Utc::now` panics on a clock set before the epoch, so a
/// value that comes back is never negative.
#[verifier::external_body]
fn now_timestamp() -> (r: i64)
    ensures
        r >= 0,
{
    chrono::Utc::now().timestamp()
}

/// Relies on serde_json's `Display` for `Value`: a `Value::String` is written
/// as one JSON string literal, the text quoted and escaped.
#[verifier::external_body]
fn json_string(s: &str) -> (r: String)
    ensures
        r@ == json_string_of(s@),
{
    serde_json::Value::String(s.to_string()).to_string()
}

#[verifier::external_type_specification]
#[verifier::external_body]
pub struct ExJsonError(serde_json::Error);

pub open spec fn digit_of(d: nat) -> char {
    if d == 0 { '0' }
    else if d == 1 { '1' }
    else if d == 2 { '2' }
    else if d == 3 { '3' }
    else if d == 4 { '4' }
    else if d == 5 { '5' }
    else if d == 6 { '6' }
    else if d == 7 { '7' }
    else if d == 8 { '8' }
    else { '9' }
}

/// The decimal numeral of `n`, without leading zeros.
pub open spec fn decimal_of(n: nat) -> Seq<char>
    decreases n,
{
    if n < 10 {
        seq![digit_of(n)]
    } else {
        decimal_of(n / 10).push(digit_of(n % 10))
    }
}

/// A non-empty string of ASCII decimal digits.
pub open spec fn is_decimal(s: Seq<char>) -> bool {
    s.len() > 0 && forall|i: int| 0 <= i < s.len() ==> '0' <= #[trigger] s[i] && s[i] <= '9'
}

/// Every numeral is a non-empty run of decimal digits.
pub proof fn lemma_decimal_digits(n: nat)
    ensures
        is_decimal(decimal_of(n)),
    decreases n,
{
    if n >= 10 {
        lemma_decimal_digits(n / 10);
    }
}

fn digit_text(d: u64) -> (r: String)
    requires
        d < 10,
    ensures
        r@ == seq![digit_of(d as nat)],
{
    let s: &str = if d == 0 { "0" }
    else if d == 1 { "1" }
    else if d == 2 { "2" }
    else if d == 3 { "3" }
    else if d == 4 { "4" }
    else if d == 5 { "5" }
    else if d == 6 { "6" }
    else if d == 7 { "7" }
    else if d == 8 { "8" }
    else { "9" };
    proof {
        reveal_strlit("0");
        reveal_strlit("1");
        reveal_strlit("2");
        reveal_strlit("3");
        reveal_strlit("4");
        reveal_strlit("5");
        reveal_strlit("6");
        reveal_strlit("7");
        reveal_strlit("8");
        reveal_strlit("9");
    }
    assert(s@ =~= seq![digit_of(d as nat)]);
    String::from_str(s)
}

/// The decimal numeral of `n`.
pub fn decimal_text(n: u64) -> (r: String)
    ensures
        r@ == decimal_of(n as nat),
{
    let mut m: u64 = n;
    let mut out = String::from_str("");
    proof {
        reveal_strlit("");
    }
    while m >= 10
        invariant
            decimal_of(n as nat) == decimal_of(m as nat) + out@,
        decreases m,
    {
        let d = digit_text(m % 10);
        proof {
            assert(decimal_of(m as nat) == decimal_of((m / 10) as nat).push(digit_of((m % 10) as nat)));
            assert(decimal_of((m / 10) as nat) + (d@ + out@) =~= decimal_of(m as nat) + out@);
        }
        out = d.concat(out.as_str());
        m = m / 10;
    }
    let d = digit_text(m);
    assert(decimal_of(m as nat) == d@);
    d.concat(out.as_str())
}

/// The text of `s` without one leading `v`, if it has one.
pub open spec fn strip_v(s: Seq<char>) -> Seq<char> {
    if s.len() > 0 && s[0] == 'v' {
        s.skip(1)
    } else {
        s
    }
}

/// The Debian package version of a semantic version: `v1.22.1` gives `1.22.1-1.1`.
pub open spec fn deb_version_of(semver: Seq<char>) -> Seq<char> {
    strip_v(semver) + seq!['-', '1', '.', '1']
}

/// The RPM package version of a semantic version: `v1.22.1` gives `1.22.1`.
pub open spec fn rpm_version_of(semver: Seq<char>) -> Seq<char> {
    strip_v(semver)
}

pub open spec fn default_semver() -> Seq<char> {
    seq!['v', '1', '.', '2', '2', '.', '1']
}

pub open spec fn default_series() -> Seq<char> {
    seq!['v', '1', '.', '2', '2']
}

pub open spec fn opt_view(o: Option<String>) -> Option<Seq<char>> {
    match o {
        Some(s) => Some(s@),
        None => None,
    }
}

/// The text that stands in `o`, or `default` where it is absent.
pub open spec fn text_or(o: Option<String>, default: Seq<char>) -> Seq<char> {
    match o {
        Some(s) => s@,
        None => default,
    }
}

fn copy_text(o: &Option<String>) -> (r: Option<String>)
    ensures
        opt_view(r) == opt_view(*o),
{
    match o {
        Some(s) => Some(s.clone()),
        None => None,
    }
}

fn text_or_default(o: &Option<String>, default: &str) -> (r: String)
    ensures
        r@ == text_or(*o, default@),
{
    match o {
        Some(s) => s.clone(),
        None => String::from_str(default),
    }
}

fn without_v(s: &str) -> (r: String)
    ensures
        r@ == strip_v(s@),
{
    let n = s.unicode_len();
    if n > 0 && s.get_char(0) == 'v' {
        String::from_str(s.substring_char(1, n))
    } else {
        String::from_str(s)
    }
}

/// Formatting keeps a present semantic version and series as they are, and
/// two formattings of one record differ at most in their build timestamps.
pub proof fn lemma_derivation_deterministic(
    before: KubernetesImage,
    first: KubernetesImage,
    second: KubernetesImage,
    stamp1: Seq<char>,
    stamp2: Seq<char>,
)
    requires
        formatted_with(before, first, stamp1),
        formatted_with(before, second, stamp2),
    ensures
        opt_view(first.kubernetes_deb_version) == opt_view(second.kubernetes_deb_version),
        opt_view(first.kubernetes_rpm_version) == opt_view(second.kubernetes_rpm_version),
        opt_view(first.kubernetes_semver) == opt_view(second.kubernetes_semver),
        opt_view(first.kubernetes_series) == opt_view(second.kubernetes_series),
        before.kubernetes_semver is Some ==> opt_view(first.kubernetes_semver) == opt_view(
            before.kubernetes_semver,
        ),
        before.kubernetes_series is Some ==> opt_view(first.kubernetes_series) == opt_view(
            before.kubernetes_series,
        ),
{
}

/// One Kubernetes image record; all five fields are set once it is formatted.
#[derive(Debug, Clone)]
pub struct KubernetesImage {
    pub build_timestamp: Option<String>,
    pub kubernetes_deb_version: Option<String>,
    pub kubernetes_rpm_version: Option<String>,
    pub kubernetes_semver: Option<String>,
    pub kubernetes_series: Option<String>,
}

/// `after` is `before` formatted with the build timestamp `stamp`.
pub open spec fn formatted_with(
    before: KubernetesImage,
    after: KubernetesImage,
    stamp: Seq<char>,
) -> bool {
    let semver = text_or(before.kubernetes_semver, default_semver());
    &&& opt_view(after.build_timestamp) == Some(stamp)
    &&& opt_view(after.kubernetes_deb_version) == Some(deb_version_of(semver))
    &&& opt_view(after.kubernetes_rpm_version) == Some(rpm_version_of(semver))
    &&& opt_view(after.kubernetes_semver) == Some(semver)
    &&& opt_view(after.kubernetes_series) == Some(
        text_or(before.kubernetes_series, default_series()),
    )
}

/// `after` is `before` formatted with some decimal build timestamp.
pub open spec fn is_formatted_from(before: KubernetesImage, after: KubernetesImage) -> bool {
    exists|stamp: Seq<char>| is_decimal(stamp) && #[trigger] formatted_with(before, after, stamp)
}

/// All five fields are set.
pub open spec fn is_complete(k: KubernetesImage) -> bool {
    &&& k.build_timestamp is Some
    &&& k.kubernetes_deb_version is Some
    &&& k.kubernetes_rpm_version is Some
    &&& k.kubernetes_semver is Some
    &&& k.kubernetes_series is Some
}

/// The JSON value of an optional text: `null`, or its string literal.
pub open spec fn json_value_of(o: Option<Seq<char>>) -> Seq<char> {
    match o {
        Some(s) => json_string_of(s),
        None => "null"@,
    }
}

/// The compact JSON object with the five keys in declaration order and the
/// given (already encoded) values.
pub open spec fn object_of(
    build_timestamp: Seq<char>,
    deb: Seq<char>,
    rpm: Seq<char>,
    semver: Seq<char>,
    series: Seq<char>,
) -> Seq<char> {
    "{\"build_timestamp\":"@ + build_timestamp + ",\"kubernetes_deb_version\":"@ + deb
        + ",\"kubernetes_rpm_version\":"@ + rpm + ",\"kubernetes_semver\":"@ + semver
        + ",\"kubernetes_series\":"@ + series + "}"@
}

/// The compact JSON text of a record.
pub open spec fn record_json(k: KubernetesImage) -> Seq<char> {
    object_of(
        json_value_of(opt_view(k.build_timestamp)),
        json_value_of(opt_view(k.kubernetes_deb_version)),
        json_value_of(opt_view(k.kubernetes_rpm_version)),
        json_value_of(opt_view(k.kubernetes_semver)),
        json_value_of(opt_view(k.kubernetes_series)),
    )
}

/// The JSON value of an optional text: `null`, or its string literal.
fn json_value(o: &Option<String>) -> (r: String)
    ensures
        r@ == json_value_of(opt_view(*o)),
{
    match o {
        Some(s) => json_string(s.as_str()),
        None => String::from_str("null"),
    }
}

/// Frames five encoded JSON values as one compact object, keys in
/// declaration order.
pub fn json_object(
    build_timestamp: &str,
    deb: &str,
    rpm: &str,
    semver: &str,
    series: &str,
) -> (r: String)
    ensures
        r@ == object_of(build_timestamp@, deb@, rpm@, semver@, series@),
{
    String::from_str("{\"build_timestamp\":").concat(build_timestamp).concat(
        ",\"kubernetes_deb_version\":",
    ).concat(deb).concat(",\"kubernetes_rpm_version\":").concat(rpm).concat(
        ",\"kubernetes_semver\":",
    ).concat(semver).concat(",\"kubernetes_series\":").concat(series).concat("}")
}

impl KubernetesImage {
    /// This record formatted with the build timestamp `stamp`: the timestamp
    /// in decimal, the package versions derived from the semantic version,
    /// and the defaults `v1.22.1` and `v1.22` where a version is absent.
    pub fn formatted(&self, stamp: u64) -> (r: KubernetesImage)
        ensures
            formatted_with(*self, r, decimal_of(stamp as nat)),
    {
        let semver = text_or_default(&self.kubernetes_semver, "v1.22.1");
        let series = text_or_default(&self.kubernetes_series, "v1.22");
        proof {
            reveal_strlit("v1.22.1");
            reveal_strlit("v1.22");
            assert("v1.22.1"@ =~= default_semver());
            assert("v1.22"@ =~= default_series());
        }
        let rpm = without_v(semver.as_str());
        let deb = without_v(semver.as_str()).concat("-1.1");
        proof {
            reveal_strlit("-1.1");
            assert(deb@ =~= deb_version_of(semver@));
        }
        KubernetesImage {
            build_timestamp: Some(decimal_text(stamp)),
            kubernetes_deb_version: Some(deb),
            kubernetes_rpm_version: Some(rpm),
            kubernetes_semver: Some(semver),
            kubernetes_series: Some(series),
        }
    }

    /// Formats this record with the current time as its build timestamp.
    pub fn set_format(&mut self) -> (r: Result<(), DataError>)
        ensures
            r is Ok,
            is_formatted_from(*old(self), *final(self)),
            is_complete(*final(self)),
    {
        let stamp = now_timestamp();
        let next = self.formatted(stamp as u64);
        proof {
            lemma_decimal_digits(stamp as nat);
        }
        *self = next;
        Ok(())
    }

    /// The compact JSON object of this record; absent fields are `null`.
    pub fn to_json(&self) -> (r: String)
        ensures
            r@ == record_json(*self),
    {
        let a = json_value(&self.build_timestamp);
        let b = json_value(&self.kubernetes_deb_version);
        let c = json_value(&self.kubernetes_rpm_version);
        let d = json_value(&self.kubernetes_semver);
        let e = json_value(&self.kubernetes_series);
        json_object(a.as_str(), b.as_str(), c.as_str(), d.as_str(), e.as_str())
    }
}

/// An error raised while formatting a record.
#[derive(Debug)]
pub struct DataError {
    pub output: String,
}

impl DataError {
    pub fn message(&self) -> (r: String)
        ensures
            r@ == self.output@,
    {
        self.output.clone()
    }
}

/// A record of one of the known kinds.
#[derive(Debug)]
pub enum Data {
    KubernetesImage(KubernetesImage),
}

/// `after` is `before` formatted, kind by kind.
pub open spec fn data_formatted_from(before: Data, after: Data) -> bool {
    match (before, after) {
        (Data::KubernetesImage(b), Data::KubernetesImage(a)) => is_formatted_from(b, a),
    }
}

/// The compact JSON text of a record of any kind.
pub open spec fn data_json(d: Data) -> Seq<char> {
    match d {
        Data::KubernetesImage(k) => record_json(k),
    }
}

impl Data {
    /// This record formatted with the current time as its build timestamp.
    pub fn formatted_now(&self) -> (r: Result<Data, DataError>)
        ensures
            r matches Ok(d) && data_formatted_from(*self, d),
    {
        match self {
            Data::KubernetesImage(k) => {
                let stamp = now_timestamp();
                let f = k.formatted(stamp as u64);
                proof {
                    lemma_decimal_digits(stamp as nat);
                }
                Ok(Data::KubernetesImage(f))
            },
        }
    }

    /// The compact JSON object of this record.
    pub fn to_json(&self) -> (r: String)
        ensures
            r@ == data_json(*self),
    {
        match self {
            Data::KubernetesImage(k) => k.to_json(),
        }
    }
}

/// The lines joined by single newlines, with none after the last.
pub open spec fn join_lines_of(lines: Seq<Seq<char>>) -> Seq<char>
    decreases lines.len(),
{
    if lines.len() == 0 {
        Seq::empty()
    } else if lines.len() == 1 {
        lines[0]
    } else {
        join_lines_of(lines.drop_last()) + seq!['\n'] + lines.last()
    }
}

/// Joins the lines by single newlines, with none after the last.
pub fn join_lines(lines: &Vec<String>) -> (r: String)
    ensures
        r@ == join_lines_of(lines@.map_values(|l: String| l@)),
{
    let ghost views = lines@.map_values(|l: String| l@);
    let mut out = String::from_str("");
    proof {
        reveal_strlit("");
        reveal_strlit("\n");
        assert(views.subrange(0, 0) =~= Seq::<Seq<char>>::empty());
    }
    let mut i: usize = 0;
    while i < lines.len()
        invariant
            i <= lines@.len(),
            views == lines@.map_values(|l: String| l@),
            out@ == join_lines_of(views.subrange(0, i as int)),
        decreases lines.len() - i,
    {
        assert(views.subrange(0, i + 1).drop_last() =~= views.subrange(0, i as int));
        assert(views[i as int] == lines@[i as int]@);
        if i == 0 {
            out = lines[i].clone();
            assert(views.subrange(0, 1) =~= seq![views[0]]);
        } else {
            proof {
                reveal_strlit("\n");
                assert("\n"@ =~= seq!['\n']);
            }
            out = out.concat("\n").concat(lines[i].as_str());
        }
        assert(views.subrange(0, i + 1).last() == views[i as int]);
        i = i + 1;
    }
    assert(views.subrange(0, lines@.len() as int) =~= views);
    out
}

/// The number of times `c` occurs in `s`.
pub open spec fn count_of(s: Seq<char>, c: char) -> nat
    decreases s.len(),
{
    if s.len() == 0 {
        0
    } else {
        count_of(s.drop_last(), c) + if s.last() == c { 1nat } else { 0nat }
    }
}

proof fn lemma_count_concat(a: Seq<char>, b: Seq<char>, c: char)
    ensures
        count_of(a + b, c) == count_of(a, c) + count_of(b, c),
    decreases b.len(),
{
    if b.len() == 0 {
        assert(a + b =~= a);
    } else {
        assert((a + b).drop_last() =~= a + b.drop_last());
        lemma_count_concat(a, b.drop_last(), c);
    }
}

/// Joining no lines gives the empty text.
pub proof fn lemma_join_empty()
    ensures
        join_lines_of(Seq::empty()) == Seq::<char>::empty(),
{
}

/// Joining `n > 0` lines that hold no newline gives exactly `n - 1` newlines,
/// and the lines stand in their order: all but the last, a newline, the last.
pub proof fn lemma_join_separators(lines: Seq<Seq<char>>)
    requires
        lines.len() > 0,
        forall|i: int| 0 <= i < lines.len() ==> count_of(#[trigger] lines[i], '\n') == 0,
    ensures
        count_of(join_lines_of(lines), '\n') == lines.len() - 1,
        lines.len() > 1 ==> join_lines_of(lines) == join_lines_of(lines.drop_last()) + seq!['\n']
            + lines.last(),
    decreases lines.len(),
{
    if lines.len() > 1 {
        let init = lines.drop_last();
        assert forall|i: int| 0 <= i < init.len() implies count_of(#[trigger] init[i], '\n') == 0 by {
            assert(init[i] == lines[i]);
        }
        lemma_join_separators(init);
        assert(count_of(seq!['\n'], '\n') == 1) by {
            assert(seq!['\n'].drop_last() =~= Seq::<char>::empty());
            assert(seq!['\n'].last() == '\n');
            assert(count_of(Seq::<char>::empty(), '\n') == 0);
        }
        lemma_count_concat(join_lines_of(init) + seq!['\n'], lines.last(), '\n');
        lemma_count_concat(join_lines_of(init), seq!['\n'], '\n');
        assert(seq!['\n'].drop_last() =~= Seq::<char>::empty());
        assert(count_of(lines[lines.len() - 1], '\n') == 0);
    }
}

/// An ordered collection of records.
pub struct Datas {
    pub datas: Vec<Data>,
}

impl Datas {
    /// Formats every record in order. Formatting a record cannot fail today;
    /// a kind whose formatting fails would stop the batch at that record.
    pub fn set_format(&mut self) -> (r: Result<(), DataError>)
        ensures
            r is Ok,
            final(self).datas@.len() == old(self).datas@.len(),
            forall|i: int|
                0 <= i < old(self).datas@.len() ==> data_formatted_from(
                    #[trigger] old(self).datas@[i],
                    final(self).datas@[i],
                ),
    {
        let mut next: Vec<Data> = Vec::new();
        let mut i: usize = 0;
        while i < self.datas.len()
            invariant
                i <= self.datas@.len(),
                next@.len() == i,
                forall|j: int|
                    0 <= j < i ==> data_formatted_from(#[trigger] self.datas@[j], next@[j]),
            decreases self.datas.len() - i,
        {
            match self.datas[i].formatted_now() {
                Ok(d) => next.push(d),
                Err(e) => {
                    return Err(e);
                },
            }
            i = i + 1;
        }
        self.datas = next;
        Ok(())
    }

    /// The compact JSON objects of the records, in order, one per line.
    /// Rendering a record cannot fail, so no record is left out.
    pub fn json(&self) -> (r: Result<String, serde_json::Error>)
        ensures
            r matches Ok(s) && s@ == join_lines_of(self.datas@.map_values(|d: Data| data_json(d))),
    {
        let mut lines: Vec<String> = Vec::new();
        let mut i: usize = 0;
        while i < self.datas.len()
            invariant
                i <= self.datas@.len(),
                lines@.len() == i,
                forall|j: int| 0 <= j < i ==> (#[trigger] lines@[j])@ == data_json(self.datas@[j]),
            decreases self.datas.len() - i,
        {
            let line = self.datas[i].to_json();
            lines.push(line);
            i = i + 1;
        }
        assert(lines@.map_values(|l: String| l@) =~= self.datas@.map_values(|d: Data| data_json(d)));
        Ok(join_lines(&lines))
    }
}

} // verus!
