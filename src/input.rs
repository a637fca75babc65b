//! The pipeline's input: pairs of semantic version and series, checked and
//! turned into unformatted records.
use vstd::prelude::*;
use crate::record::{Data, Datas, KubernetesImage};
use crate::shape::{is_semver, is_series, same_text, semver_shape, series_shape};

verus! {

/// Why the input was refused.
#[derive(Debug, Clone, Copy, PartialEq, Eq, Structural)]
pub enum InputError {
    /// The format selector is not `params`.
    UnknownFormat,
    /// The semantic version does not have the shape `vD.DD.D[D]`.
    BadSemver,
    /// The series does not have the shape `vD.DD`.
    BadSeries,
}

impl InputError {
    /// A short description of the error.
    pub fn message(&self) -> (r: &'static str)
        ensures
            *self == InputError::UnknownFormat ==> r@ == "unknown format"@,
            *self == InputError::BadSemver ==> r@ == "kubernetes semver has bad format"@,
            *self == InputError::BadSeries ==> r@ == "kubernetes series has bad format"@,
    {
        proof {
            reveal_strlit("unknown format");
            reveal_strlit("kubernetes semver has bad format");
            reveal_strlit("kubernetes series has bad format");
        }
        match self {
            InputError::UnknownFormat => "unknown format",
            InputError::BadSemver => "kubernetes semver has bad format",
            InputError::BadSeries => "kubernetes series has bad format",
        }
    }
}

/// One requested Kubernetes version.
#[derive(Debug, Clone)]
pub struct KubernetesVersions {
    pub kubernetes_semver: String,
    pub kubernetes_series: String,
}

/// The fields of a record before it is formatted.
#[derive(Debug, Clone)]
pub struct KubernetesSpecs {
    pub build_timestamp: Option<String>,
    pub kubernetes_deb_version: Option<String>,
    pub kubernetes_rpm_version: Option<String>,
    pub kubernetes_semver: Option<String>,
    pub kubernetes_series: Option<String>,
}

/// The requested versions, in order.
#[derive(Debug, Clone)]
pub struct Input {
    pub kubernetes: Vec<KubernetesVersions>,
}

pub open spec fn params_format() -> Seq<char> {
    seq!['p', 'a', 'r', 'a', 'm', 's']
}

/// The error that a requested version gives, if any: the semantic version is
/// checked first, then the series.
pub open spec fn entry_error(v: KubernetesVersions) -> Option<InputError> {
    if !semver_shape(v.kubernetes_semver@) {
        Some(InputError::BadSemver)
    } else if !series_shape(v.kubernetes_series@) {
        Some(InputError::BadSeries)
    } else {
        None
    }
}

/// The unformatted record of a requested version.
pub open spec fn record_of(v: KubernetesVersions) -> KubernetesImage {
    KubernetesImage {
        build_timestamp: None,
        kubernetes_deb_version: None,
        kubernetes_rpm_version: None,
        kubernetes_semver: Some(v.kubernetes_semver),
        kubernetes_series: Some(v.kubernetes_series),
    }
}

/// Every requested version has a good shape.
pub open spec fn all_valid(vs: Seq<KubernetesVersions>) -> bool {
    forall|i: int| 0 <= i < vs.len() ==> (#[trigger] entry_error(vs[i])) is None
}

/// `e` is the error of the first requested version that has one.
pub open spec fn first_error_is(vs: Seq<KubernetesVersions>, e: InputError) -> bool {
    exists|i: int|
        0 <= i < vs.len() && #[trigger] entry_error(vs[i]) == Some(e) && all_valid(
            vs.subrange(0, i),
        )
}

impl KubernetesSpecs {
    /// Checks the shapes of a requested version and gives its unformatted fields.
    pub fn new(kubernetes: &KubernetesVersions) -> (r: Result<KubernetesSpecs, InputError>)
        ensures
            match entry_error(*kubernetes) {
                Some(e) => r == Err::<KubernetesSpecs, InputError>(e),
                None => r matches Ok(s) && s.kubernetes_semver == Some(kubernetes.kubernetes_semver)
                    && s.kubernetes_series == Some(kubernetes.kubernetes_series)
                    && s.build_timestamp is None && s.kubernetes_deb_version is None
                    && s.kubernetes_rpm_version is None,
            },
    {
        if !is_semver(kubernetes.kubernetes_semver.as_str()) {
            return Err(InputError::BadSemver);
        }
        if !is_series(kubernetes.kubernetes_series.as_str()) {
            return Err(InputError::BadSeries);
        }
        Ok(
            KubernetesSpecs {
                kubernetes_semver: Some(kubernetes.kubernetes_semver.clone()),
                kubernetes_series: Some(kubernetes.kubernetes_series.clone()),
                kubernetes_deb_version: None,
                kubernetes_rpm_version: None,
                build_timestamp: None,
            },
        )
    }
}

impl Input {
    /// The input for the format `params`: the one given version.
    pub fn new(kubernetes_semver: &str, kubernetes_series: &str, format: &str) -> (r: Result<
        Input,
        InputError,
    >)
        ensures
            format@ == params_format() ==> (r matches Ok(i) && i.kubernetes@.len() == 1
                && i.kubernetes@[0].kubernetes_semver@ == kubernetes_semver@
                && i.kubernetes@[0].kubernetes_series@ == kubernetes_series@),
            format@ != params_format() ==> r == Err::<Input, InputError>(InputError::UnknownFormat),
    {
        proof {
            reveal_strlit("params");
            assert("params"@ =~= params_format());
        }
        if same_text(format, "params") {
            let mut kubernetes: Vec<KubernetesVersions> = Vec::new();
            kubernetes.push(
                KubernetesVersions {
                    kubernetes_semver: String::from_str(kubernetes_semver),
                    kubernetes_series: String::from_str(kubernetes_series),
                },
            );
            Ok(Input { kubernetes })
        } else {
            Err(InputError::UnknownFormat)
        }
    }

    /// Checks each requested version in order and appends its unformatted
    /// record; stops at the first version with a bad shape.
    pub fn fill_data_kubernetes(&self, datas: &mut Datas) -> (r: Result<(), InputError>)
        ensures
            r is Ok <==> all_valid(self.kubernetes@),
            r matches Err(e) ==> first_error_is(self.kubernetes@, e),
            r is Ok ==> final(datas).datas@ == old(datas).datas@ + self.kubernetes@.map_values(
                |v: KubernetesVersions| Data::KubernetesImage(record_of(v)),
            ),
    {
        let ghost start = datas.datas@;
        let mut i: usize = 0;
        while i < self.kubernetes.len()
            invariant
                i <= self.kubernetes@.len(),
                all_valid(self.kubernetes@.subrange(0, i as int)),
                datas.datas@ == start + self.kubernetes@.subrange(0, i as int).map_values(
                    |v: KubernetesVersions| Data::KubernetesImage(record_of(v)),
                ),
            decreases self.kubernetes.len() - i,
        {
            let specs = match KubernetesSpecs::new(&self.kubernetes[i]) {
                Ok(specs) => specs,
                Err(e) => {
                    assert(!all_valid(self.kubernetes@));
                    assert(entry_error(self.kubernetes@[i as int]) == Some(e));
                    return Err(e);
                },
            };
            let image = KubernetesImage {
                kubernetes_semver: specs.kubernetes_semver,
                kubernetes_series: specs.kubernetes_series,
                kubernetes_deb_version: specs.kubernetes_deb_version,
                kubernetes_rpm_version: specs.kubernetes_rpm_version,
                build_timestamp: specs.build_timestamp,
            };
            datas.datas.push(Data::KubernetesImage(image));
            proof {
                let sub = self.kubernetes@.subrange(0, i + 1);
                assert(sub =~= self.kubernetes@.subrange(0, i as int).push(self.kubernetes@[i as int]));
                assert(sub.map_values(|v: KubernetesVersions| Data::KubernetesImage(record_of(v)))
                    =~= self.kubernetes@.subrange(0, i as int).map_values(
                    |v: KubernetesVersions| Data::KubernetesImage(record_of(v)),
                ).push(Data::KubernetesImage(record_of(self.kubernetes@[i as int]))));
                assert forall|j: int| 0 <= j < sub.len() implies (#[trigger] entry_error(sub[j])) is None by {
                    if j < i {
                        assert(sub[j] == self.kubernetes@.subrange(0, i as int)[j]);
                    }
                }
            }
            i = i + 1;
        }
        assert(self.kubernetes@.subrange(0, i as int) =~= self.kubernetes@);
        Ok(())
    }
}

impl Datas {
    /// The unformatted records of the requested versions, in order; refused at
    /// the first version with a bad shape.
    pub fn from_input(input: &Input) -> (r: Result<Datas, InputError>)
        ensures
            r is Ok <==> all_valid(input.kubernetes@),
            r matches Err(e) ==> first_error_is(input.kubernetes@, e),
            r matches Ok(d) ==> d.datas@ == input.kubernetes@.map_values(
                |v: KubernetesVersions| Data::KubernetesImage(record_of(v)),
            ),
    {
        let mut datas = Datas { datas: Vec::new() };
        match input.fill_data_kubernetes(&mut datas) {
            Ok(()) => {
                assert(datas.datas@ =~= input.kubernetes@.map_values(
                    |v: KubernetesVersions| Data::KubernetesImage(record_of(v)),
                ));
                Ok(datas)
            },
            Err(e) => Err(e),
        }
    }
}

} // verus!
