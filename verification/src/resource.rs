//! The resource: the attributes that describe the running process, resolved
//! once from a fixed list of providers.

use opentelemetry_sdk::resource::EnvResourceDetector;
use opentelemetry_sdk::resource::ResourceDetector;
use opentelemetry_sdk::resource::SdkProvidedResourceDetector;
use opentelemetry_sdk::resource::TelemetryResourceDetector;
use std::time::Duration;
use vstd::prelude::*;

verus! {

/// One attribute of the process.
#[derive(Clone, Debug, PartialEq, Eq)]
pub struct Attribute {
    pub key: String,
    pub value: String,
}

/// The attributes of the process, each key held once.
#[derive(Debug)]
pub struct Resource {
    attrs: Vec<Attribute>,
}

/// The value of the first attribute of `attrs` whose key is `key`.
pub open spec fn lookup(attrs: Seq<Attribute>, key: Seq<char>) -> Option<Seq<char>>
    decreases attrs.len(),
{
    if attrs.len() == 0 {
        None
    } else {
        match lookup(attrs.drop_last(), key) {
            Some(v) => Some(v),
            None => if attrs.last().key@ == key {
                Some(attrs.last().value@)
            } else {
                None
            },
        }
    }
}

/// The value that the providers give `key`: that of the first provider that
/// has the key at all.
pub open spec fn first_provided(providers: Seq<Vec<Attribute>>, key: Seq<char>) -> Option<
    Seq<char>,
>
    decreases providers.len(),
{
    if providers.len() == 0 {
        None
    } else {
        match first_provided(providers.drop_last(), key) {
            Some(v) => Some(v),
            None => lookup(providers.last()@, key),
        }
    }
}

/// `base` after it took over, one by one and in their order, the attributes of
/// `later` whose key it did not hold yet.
pub open spec fn merged(base: Seq<Attribute>, later: Seq<Attribute>) -> Seq<Attribute>
    decreases later.len(),
{
    if later.len() == 0 {
        base
    } else {
        let so_far = merged(base, later.drop_last());
        if lookup(so_far, later.last().key@) is Some {
            so_far
        } else {
            so_far.push(later.last())
        }
    }
}

/// What the providers give together: each merged in its turn into what the
/// providers before it gave.
pub open spec fn resolved(providers: Seq<Vec<Attribute>>) -> Seq<Attribute>
    decreases providers.len(),
{
    if providers.len() == 0 {
        Seq::empty()
    } else {
        merged(resolved(providers.drop_last()), providers.last()@)
    }
}

/// The key of the service's name.
pub open spec fn service_name_key() -> Seq<char> {
    "service.name"@
}

/// The key of the telemetry SDK's name.
pub open spec fn sdk_name_key() -> Seq<char> {
    "telemetry.sdk.name"@
}

/// The key of the telemetry SDK's language.
pub open spec fn sdk_language_key() -> Seq<char> {
    "telemetry.sdk.language"@
}

/// The key of the telemetry SDK's version.
pub open spec fn sdk_version_key() -> Seq<char> {
    "telemetry.sdk.version"@
}

/// No key stands at two places of `attrs`.
pub open spec fn distinct_keys(attrs: Seq<Attribute>) -> bool {
    forall|i: int, j: int|
        0 <= i < j < attrs.len() ==> (#[trigger] attrs[i]).key@ != (#[trigger] attrs[j]).key@
}

/// `lookup` finds nothing exactly where no attribute has the key.
pub proof fn lemma_lookup_none(attrs: Seq<Attribute>, key: Seq<char>)
    ensures
        lookup(attrs, key) is None <==> forall|i: int|
            0 <= i < attrs.len() ==> (#[trigger] attrs[i]).key@ != key,
    decreases attrs.len(),
{
    if attrs.len() > 0 {
        lemma_lookup_none(attrs.drop_last(), key);
        if lookup(attrs, key) is None {
            assert forall|i: int| 0 <= i < attrs.len() implies (#[trigger] attrs[i]).key@
                != key by {
                if i < attrs.len() - 1 {
                    assert(attrs.drop_last()[i] == attrs[i]);
                }
            }
        } else if lookup(attrs.drop_last(), key) is Some {
            let i = choose|i: int|
                0 <= i < attrs.drop_last().len() && (#[trigger] attrs.drop_last()[i]).key@ == key;
            assert(attrs[i].key@ == key);
        } else {
            assert(attrs[attrs.len() - 1].key@ == key);
        }
    }
}

/// `lookup` gives the value of the first attribute that has the key.
pub proof fn lemma_lookup_first(attrs: Seq<Attribute>, i: int)
    requires
        0 <= i < attrs.len(),
        forall|j: int| 0 <= j < i ==> (#[trigger] attrs[j]).key@ != attrs[i].key@,
    ensures
        lookup(attrs, attrs[i].key@) == Some(attrs[i].value@),
    decreases attrs.len(),
{
    let key = attrs[i].key@;
    let front = attrs.drop_last();
    if i == attrs.len() - 1 {
        assert forall|j: int| 0 <= j < front.len() implies (#[trigger] front[j]).key@ != key by {
            assert(front[j] == attrs[j]);
        }
        lemma_lookup_none(front, key);
    } else {
        assert(front[i] == attrs[i]);
        assert forall|j: int| 0 <= j < i implies (#[trigger] front[j]).key@ != front[i].key@ by {
            assert(front[j] == attrs[j]);
        }
        lemma_lookup_first(front, i);
    }
}

/// Reads the attributes that the environment declares for the process, by
/// `EnvResourceDetector::detect` of opentelemetry_sdk. What comes back depends
/// on the environment of the process, so nothing is claimed of it.
#[verifier::external_body]
fn detect_environment(timeout_secs: u64) -> (found: Vec<Attribute>) {
    let detected = EnvResourceDetector::new().detect(Duration::from_secs(timeout_secs));
    let mut found = Vec::new();
    for (k, v) in detected.iter() {
        found.push(Attribute { key: k.as_str().to_owned(), value: v.as_str().into_owned() });
    }
    found
}

/// Reads the service name that the SDK settles on, by
/// `SdkProvidedResourceDetector::detect` of opentelemetry_sdk: one attribute,
/// under the key `service.name`. Its value comes from the environment of the
/// process, so nothing is claimed of it.
#[verifier::external_body]
fn detect_sdk_provided(timeout_secs: u64) -> (found: Vec<Attribute>)
    ensures
        found@.len() == 1,
        found@[0].key@ == service_name_key(),
{
    let detected = SdkProvidedResourceDetector.detect(Duration::from_secs(timeout_secs));
    let mut found = Vec::new();
    for (k, v) in detected.iter() {
        found.push(Attribute { key: k.as_str().to_owned(), value: v.as_str().into_owned() });
    }
    found
}

/// Reads the attributes that name the telemetry SDK itself, by
/// `TelemetryResourceDetector::detect` of opentelemetry_sdk: its name, which is
/// `opentelemetry`, its language, which is `rust`, and its version. They come
/// in the order of a hash map's walk, so nothing is claimed of their places.
#[verifier::external_body]
fn detect_telemetry(timeout_secs: u64) -> (found: Vec<Attribute>)
    ensures
        found@.len() == 3,
        lookup(found@, sdk_name_key()) == Some("opentelemetry"@),
        lookup(found@, sdk_language_key()) == Some("rust"@),
        lookup(found@, sdk_version_key()) is Some,
{
    let detected = TelemetryResourceDetector.detect(Duration::from_secs(timeout_secs));
    let mut found = Vec::new();
    for (k, v) in detected.iter() {
        found.push(Attribute { key: k.as_str().to_owned(), value: v.as_str().into_owned() });
    }
    found
}

impl Resource {
    /// The attributes, in the order in which they were set.
    pub closed spec fn attrs(&self) -> Seq<Attribute> {
        self.attrs@
    }

    /// The invariant of a resource: each key is held once.
    pub open spec fn wf(&self) -> bool {
        distinct_keys(self.attrs())
    }

    /// The value that the resource holds for `key`.
    pub open spec fn value_of(&self, key: Seq<char>) -> Option<Seq<char>> {
        lookup(self.attrs(), key)
    }

    /// A resource without attributes.
    pub fn empty() -> (r: Resource)
        ensures
            r.wf(),
            r.attrs().len() == 0,
    {
        Resource { attrs: Vec::new() }
    }

    /// How many attributes the resource holds.
    pub fn len(&self) -> (n: usize)
        ensures
            n == self.attrs().len(),
    {
        self.attrs.len()
    }

    /// Whether some attribute has the key `key`.
    pub fn contains(&self, key: &str) -> (found: bool)
        ensures
            found <==> self.value_of(key@) is Some,
    {
        let wanted = key.to_owned();
        let mut i: usize = 0;
        while i < self.attrs.len()
            invariant
                i <= self.attrs@.len(),
                wanted@ == key@,
                forall|j: int| 0 <= j < i ==> (#[trigger] self.attrs@[j]).key@ != key@,
            decreases self.attrs@.len() - i,
        {
            if self.attrs[i].key == wanted {
                proof {
                    lemma_lookup_none(self.attrs@, key@);
                }
                return true;
            }
            i += 1;
        }
        proof {
            lemma_lookup_none(self.attrs@, key@);
        }
        false
    }

    /// The value held for `key`, if any.
    pub fn get(&self, key: &str) -> (found: Option<String>)
        ensures
            found is Some <==> self.value_of(key@) is Some,
            found is Some ==> Some(found.unwrap()@) == self.value_of(key@),
    {
        let wanted = key.to_owned();
        let mut i: usize = 0;
        while i < self.attrs.len()
            invariant
                i <= self.attrs@.len(),
                wanted@ == key@,
                forall|j: int| 0 <= j < i ==> (#[trigger] self.attrs@[j]).key@ != key@,
            decreases self.attrs@.len() - i,
        {
            if self.attrs[i].key == wanted {
                proof {
                    lemma_lookup_first(self.attrs@, i as int);
                }
                return Some(self.attrs[i].value.clone());
            }
            i += 1;
        }
        proof {
            lemma_lookup_none(self.attrs@, key@);
        }
        None
    }

    /// Takes over the attributes of `later` whose key is not yet set. What the
    /// resource held stays as it was, and of two attributes of `later` with one
    /// key the first counts.
    pub fn merge(&mut self, later: &Vec<Attribute>)
        requires
            old(self).wf(),
        ensures
            final(self).wf(),
            final(self).attrs() == merged(old(self).attrs(), later@),
            old(self).attrs().is_prefix_of(final(self).attrs()),
            forall|k: Seq<char>|
                final(self).value_of(k) == match old(self).value_of(k) {
                    Some(v) => Some(v),
                    None => lookup(later@, k),
                },
    {
        let mut i: usize = 0;
        while i < later.len()
            invariant
                self.wf(),
                self.attrs() == merged(old(self).attrs(), later@.take(i as int)),
                old(self).attrs().is_prefix_of(self.attrs()),
                i <= later@.len(),
                forall|k: Seq<char>|
                    #[trigger] lookup(self.attrs@, k) == match old(self).value_of(k) {
                        Some(v) => Some(v),
                        None => lookup(later@.take(i as int), k),
                    },
            decreases later@.len() - i,
        {
            let ghost before = self.attrs@;
            let ghost head = later@.take(i as int);
            proof {
                assert(later@.take(i + 1).drop_last() =~= head);
                assert(later@.take(i + 1).last() == later@[i as int]);
            }
            let present = self.contains(later[i].key.as_str());
            if !present {
                proof {
                    lemma_lookup_none(before, later@[i as int].key@);
                }
                let item = Attribute { key: later[i].key.clone(), value: later[i].value.clone() };
                self.attrs.push(item);
                proof {
                    assert(self.attrs@.drop_last() =~= before);
                    assert(self.attrs@.last() == item);
                }
            }
            i += 1;
            proof {
                assert forall|k: Seq<char>|
                    #[trigger] lookup(self.attrs@, k) == match old(self).value_of(k) {
                        Some(v) => Some(v),
                        None => lookup(later@.take(i as int), k),
                    } by {
                    assert(lookup(before, k) == match old(self).value_of(k) {
                        Some(v) => Some(v),
                        None => lookup(head, k),
                    });
                }
            }
        }
        proof {
            assert(later@.take(i as int) =~= later@);
        }
    }

    /// Resolves the providers in their order: for each key the first provider
    /// that has it decides. A provider that found nothing is an empty list.
    pub fn resolve(providers: &Vec<Vec<Attribute>>) -> (r: Resource)
        ensures
            r.wf(),
            r.attrs() == resolved(providers@),
            forall|k: Seq<char>| r.value_of(k) == first_provided(providers@, k),
    {
        let mut r = Resource::empty();
        let mut i: usize = 0;
        while i < providers.len()
            invariant
                r.wf(),
                i <= providers@.len(),
                r.attrs() == resolved(providers@.take(i as int)),
                forall|k: Seq<char>|
                    r.value_of(k) == first_provided(providers@.take(i as int), k),
            decreases providers@.len() - i,
        {
            proof {
                assert(providers@.take(i + 1).drop_last() =~= providers@.take(i as int));
                assert(providers@.take(i + 1).last() == providers@[i as int]);
            }
            r.merge(&providers[i]);
            i += 1;
        }
        proof {
            assert(providers@.take(i as int) =~= providers@);
        }
        r
    }

    /// Resolves the resource of this process: what the environment declares,
    /// then what the SDK provides, then what names the telemetry SDK. Each
    /// provider gets `timeout_secs` seconds. Whatever the providers find, the
    /// result holds each key once, with the value of the first provider that
    /// has it, and it names the service and the telemetry SDK.
    pub fn detect(timeout_secs: u64) -> (r: Resource)
        ensures
            r.wf(),
            r.value_of(service_name_key()) is Some,
            r.value_of(sdk_name_key()) is Some,
            r.value_of(sdk_language_key()) is Some,
            r.value_of(sdk_version_key()) is Some,
    {
        let from_environment = detect_environment(timeout_secs);
        let from_sdk = detect_sdk_provided(timeout_secs);
        let from_telemetry = detect_telemetry(timeout_secs);
        let ghost found = seq![from_environment, from_sdk, from_telemetry];
        let mut providers: Vec<Vec<Attribute>> = Vec::new();
        providers.push(from_environment);
        providers.push(from_sdk);
        providers.push(from_telemetry);
        let r = Resource::resolve(&providers);
        proof {
            reveal_with_fuel(first_provided, 4);
            assert(providers@ =~= found);
            assert(found.drop_last() =~= seq![from_environment, from_sdk]);
            assert(found.drop_last().drop_last() =~= seq![from_environment]);
            assert(found.last() == from_telemetry);
            assert(found.drop_last().last() == from_sdk);
            lemma_lookup_first(from_sdk@, 0);
        }
        r
    }

    /// The attributes as pairs of key and value, in the order in which they
    /// were set.
    pub fn to_pairs(&self) -> (pairs: Vec<(String, String)>)
        ensures
            pairs@.len() == self.attrs().len(),
            forall|i: int|
                0 <= i < pairs@.len() ==> (#[trigger] pairs@[i]).0@ == self.attrs()[i].key@
                    && pairs@[i].1@ == self.attrs()[i].value@,
    {
        let mut pairs: Vec<(String, String)> = Vec::new();
        let mut i: usize = 0;
        while i < self.attrs.len()
            invariant
                i <= self.attrs@.len(),
                pairs@.len() == i,
                forall|j: int|
                    0 <= j < i ==> (#[trigger] pairs@[j]).0@ == self.attrs@[j].key@ && pairs@[j].1@
                        == self.attrs@[j].value@,
            decreases self.attrs@.len() - i,
        {
            pairs.push((self.attrs[i].key.clone(), self.attrs[i].value.clone()));
            i += 1;
        }
        pairs
    }
}

} // verus!
