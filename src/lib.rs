//! Derives packaging version strings (Debian, RPM) and a build timestamp
//! from a Kubernetes semantic version and series, and renders them as JSON.
use vstd::prelude::*;

pub mod input;
pub mod record;
pub mod shape;

use crate::input::{all_valid, entry_error, Input, InputError, params_format};
use crate::record::{
    count_of, data_formatted_from, data_json, default_semver, default_series, deb_version_of,
    formatted_with, is_decimal, join_lines_of, json_string_of, object_of, rpm_version_of,
    text_or, Data, Datas,
};
use crate::shape::{semver_shape, series_shape};

verus! {

/// The JSON text that a run produced.
#[derive(Debug, Clone)]
pub struct KubernetesVersion {
    pub kubernetes_output: String,
}

/// The JSON object of a formatted record for `semver` and `series`, stamped `stamp`.
pub open spec fn output_of(stamp: Seq<char>, semver: Seq<char>, series: Seq<char>) -> Seq<char> {
    object_of(
        json_string_of(stamp),
        json_string_of(deb_version_of(semver)),
        json_string_of(rpm_version_of(semver)),
        json_string_of(semver),
        json_string_of(series),
    )
}

/// Runs the pipeline for one requested version: selects the input format,
/// checks the shapes, formats the record with the current time and renders
/// it as compact JSON. An absent semantic version or series takes the
/// default `v1.22.1` or `v1.22`.
pub fn kubernetes_json(
    format: &str,
    kubernetes_semver: Option<String>,
    kubernetes_series: Option<String>,
) -> (r: Result<KubernetesVersion, InputError>)
    ensures
        ({
            let semver = text_or(kubernetes_semver, default_semver());
            let series = text_or(kubernetes_series, default_series());
            &&& format@ != params_format() ==> r == Err::<KubernetesVersion, InputError>(
                InputError::UnknownFormat,
            )
            &&& format@ == params_format() && !semver_shape(semver) ==> r == Err::<
                KubernetesVersion,
                InputError,
            >(InputError::BadSemver)
            &&& format@ == params_format() && semver_shape(semver) && !series_shape(series) ==> r
                == Err::<KubernetesVersion, InputError>(InputError::BadSeries)
            &&& format@ == params_format() && semver_shape(semver) && series_shape(series) ==> (r matches Ok(v)
                && exists|stamp: Seq<char>|
                is_decimal(stamp) && v.kubernetes_output@ == #[trigger] output_of(
                    stamp,
                    semver,
                    series,
                ))
        }),
{
    let semver = match kubernetes_semver {
        Some(s) => s,
        None => String::from_str("v1.22.1"),
    };
    let series = match kubernetes_series {
        Some(s) => s,
        None => String::from_str("v1.22"),
    };
    proof {
        reveal_strlit("v1.22.1");
        reveal_strlit("v1.22");
        assert("v1.22.1"@ =~= default_semver());
        assert("v1.22"@ =~= default_series());
    }
    let input = Input::new(semver.as_str(), series.as_str(), format)?;
    let mut datas = Datas::from_input(&input)?;
    let ghost entry = input.kubernetes@[0];
    proof {
        assert(all_valid(input.kubernetes@) ==> entry_error(entry) is None);
        assert(entry_error(entry) is None ==> all_valid(input.kubernetes@));
    }
    let ghost before = datas.datas@;
    let formatted = datas.set_format();
    assert(formatted is Ok);
    let output = match datas.json() {
        Ok(s) => s,
        Err(_) => String::new(),
    };
    proof {
        let after = datas.datas@;
        assert(before[0] == Data::KubernetesImage(crate::input::record_of(entry)));
        assert(data_formatted_from(before[0], after[0]));
        let k = match after[0] {
            Data::KubernetesImage(k) => k,
        };
        let b = crate::input::record_of(entry);
        let stamp = choose|stamp: Seq<char>| is_decimal(stamp) && formatted_with(b, k, stamp);
        assert(after.map_values(|d: Data| data_json(d)) =~= seq![data_json(after[0])]);
        assert(output@ == output_of(stamp, semver@, series@));
    }
    Ok(KubernetesVersion { kubernetes_output: output })
}

/// `first` is the text of `s` up to its first newline, or all of `s` where it
/// has none.
pub open spec fn is_first_line(s: Seq<char>, first: Seq<char>) -> bool {
    &&& first.len() <= s.len()
    &&& s.subrange(0, first.len() as int) == first
    &&& count_of(first, '\n') == 0
    &&& (first.len() == s.len() || s[first.len() as int] == '\n')
}

proof fn lemma_no_newline(s: Seq<char>)
    requires
        forall|i: int| 0 <= i < s.len() ==> s[i] != '\n',
    ensures
        count_of(s, '\n') == 0,
    decreases s.len(),
{
    if s.len() > 0 {
        lemma_no_newline(s.drop_last());
    }
}

/// The first line of `output`: the first record of a rendered collection.
pub fn first_record(output: &str) -> (r: String)
    ensures
        is_first_line(output@, r@),
{
    let n = output.unicode_len();
    let mut i: usize = 0;
    while i < n && output.get_char(i) != '\n'
        invariant
            n == output@.len(),
            i <= n,
            forall|j: int| 0 <= j < i ==> output@[j] != '\n',
        decreases n - i,
    {
        i = i + 1;
    }
    let first = output.substring_char(0, i);
    proof {
        lemma_no_newline(first@);
    }
    String::from_str(first)
}

/// The first line of the joined text of lines without newlines is the
/// first of those lines: a rendered collection keeps only its first record
/// there.
pub proof fn lemma_first_of_joined(lines: Seq<Seq<char>>)
    requires
        lines.len() > 0,
        forall|i: int| 0 <= i < lines.len() ==> count_of(#[trigger] lines[i], '\n') == 0,
    ensures
        is_first_line(join_lines_of(lines), lines[0]),
    decreases lines.len(),
{
    let joined = join_lines_of(lines);
    if lines.len() == 1 {
        assert(joined.subrange(0, joined.len() as int) =~= joined);
    } else {
        let init = lines.drop_last();
        assert forall|i: int| 0 <= i < init.len() implies count_of(#[trigger] init[i], '\n') == 0 by {
            assert(init[i] == lines[i]);
        }
        lemma_first_of_joined(init);
        let head = join_lines_of(init);
        let n = lines[0].len() as int;
        assert(init[0] == lines[0]);
        assert(joined == head + seq!['\n'] + lines.last());
        assert(joined.subrange(0, n) =~= head.subrange(0, n));
        if n < head.len() {
            assert(joined[n] == head[n]);
        } else {
            assert(joined[n] == '\n');
        }
    }
}

} // verus!
