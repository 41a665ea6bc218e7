//! Names of layers and extensions: decoding the NUL-terminated names that
//! the driver reports, and checking that the required ones are offered.
use vstd::prelude::*;
use vstd::multiset::Multiset;
use vstd::utf8::*;

verus! {

/// `k` is the position of the first NUL byte of `s`.
pub open spec fn is_first_nul(s: Seq<u8>, k: int) -> bool {
    &&& 0 <= k < s.len()
    &&& s[k] == 0
    &&& forall|j: int| 0 <= j < k ==> s[j] != 0
}

/// `s` holds a NUL byte, so it is a C string.
pub open spec fn has_nul(s: Seq<u8>) -> bool {
    exists|k: int| 0 <= k < s.len() && s[k] == 0
}

/// The bytes of the C string in `s`: those before its first NUL byte.
pub open spec fn c_string_bytes(s: Seq<u8>) -> Seq<u8> {
    s.take(choose|k: int| is_first_nul(s, k))
}

/// The C string in `s` can be read as text.
pub open spec fn valid_c_name(s: Seq<u8>) -> bool {
    has_nul(s) && valid_utf8(c_string_bytes(s))
}

/// The text of the C string in `s`.
pub open spec fn c_name(s: Seq<u8>) -> Seq<char> {
    decode_utf8(c_string_bytes(s))
}

/// `std::str::from_utf8`: by its documentation it succeeds exactly on
/// well-formed UTF-8, and the string it returns holds the decoded
/// characters of the bytes.
#[verifier::external_body]
fn str_from_utf8(bytes: &[u8]) -> (r: Option<&str>)
    ensures
        r is Some <==> valid_utf8(bytes@),
        r matches Some(s) ==> s@ == decode_utf8(bytes@),
{
    std::str::from_utf8(bytes).ok()
}

proof fn lemma_first_nul_unique(s: Seq<u8>, k: int)
    requires
        is_first_nul(s, k),
    ensures
        c_string_bytes(s) == s.take(k),
{
    let c = choose|k: int| is_first_nul(s, k);
    assert(is_first_nul(s, c));
    if c < k {
        assert(s[c] != 0);
    } else if k < c {
        assert(s[k] != 0);
    }
}

/// The text of a fixed-size, NUL-terminated name array as the driver
/// reports it (an extension or a layer name), read up to its first NUL.
pub fn char2str(chars: &[u8]) -> (r: String)
    requires
        valid_c_name(chars@),
    ensures
        r@ == c_name(chars@),
        forall|k: int| is_first_nul(chars@, k) ==> r@ == decode_utf8(chars@.take(k)),
{
    let mut bytes: Vec<u8> = Vec::new();
    let mut i: usize = 0;
    while chars[i] != 0
        invariant
            has_nul(chars@),
            0 <= i < chars@.len(),
            forall|j: int| 0 <= j < i ==> chars@[j] != 0,
            bytes@ == chars@.take(i as int),
        decreases chars@.len() - i,
    {
        bytes.push(chars[i]);
        i = i + 1;
        assert(bytes@ == chars@.take(i as int));
        proof {
            if i == chars.len() {
                let k = choose|k: int| 0 <= k < chars@.len() && chars@[k] == 0;
                assert(chars@[k] != 0);
            }
        }
    }
    proof {
        lemma_first_nul_unique(chars@, i as int);
        assert forall|k: int| is_first_nul(chars@, k) implies k == i by {
            if k < i {
                assert(chars@[k] != 0);
            } else if k > i {
                assert(chars@[i as int] != 0);
            }
        }
    }
    str_from_utf8(bytes.as_slice()).unwrap().to_owned()
}

/// The texts of a list of strings.
pub open spec fn texts(names: Seq<String>) -> Seq<Seq<char>> {
    names.map_values(|name: String| name@)
}

/// The texts of a list of NUL-terminated names as the driver reports them.
pub open spec fn c_names(raw: Seq<Vec<u8>>) -> Seq<Seq<char>> {
    raw.map_values(|name: Vec<u8>| c_name(name@))
}

/// Every name of the list can be read as text.
pub open spec fn all_valid_c_names(raw: Seq<Vec<u8>>) -> bool {
    forall|i: int| 0 <= i < raw.len() ==> valid_c_name(#[trigger] raw[i]@)
}

/// The device extensions that the application needs: the swap chain.
pub open spec fn required_device_extensions() -> Seq<Seq<char>> {
    seq!["VK_KHR_swapchain"@]
}

/// The device extensions that the application needs.
pub fn device_extensions() -> (r: Vec<String>)
    ensures
        texts(r@) == required_device_extensions(),
{
    let mut names: Vec<String> = Vec::new();
    names.push("VK_KHR_swapchain".to_owned());
    assert(texts(names@) =~= required_device_extensions());
    names
}

/// The position of the first name in `names` whose text is `name`.
fn position_of(names: &Vec<String>, name: &String) -> (r: Option<usize>)
    ensures
        r matches Some(k) ==> k < names@.len() && names@[k as int]@ == name@ && forall|j: int|
            0 <= j < k ==> names@[j]@ != name@,
        r is None ==> forall|j: int| 0 <= j < names@.len() ==> names@[j]@ != name@,
{
    let mut i: usize = 0;
    while i < names.len()
        invariant
            i <= names@.len(),
            forall|j: int| 0 <= j < i ==> names@[j]@ != name@,
        decreases names@.len() - i,
    {
        if names[i] == *name {
            return Some(i);
        }
        i = i + 1;
    }
    None
}

/// One step of the matching: the offered name `offered` takes away one
/// occurrence of itself from the names still missing, if there is one.
proof fn lemma_match_one(
    missing_before: Multiset<Seq<char>>,
    required: Multiset<Seq<char>>,
    offered_before: Multiset<Seq<char>>,
    offered: Seq<char>,
    missing_after: Multiset<Seq<char>>,
)
    requires
        missing_before == required.difference_with(offered_before),
        missing_before.count(offered) > 0 ==> missing_after == missing_before.remove(offered),
        missing_before.count(offered) == 0 ==> missing_after == missing_before,
    ensures
        missing_after == required.difference_with(offered_before.insert(offered)),
{
    broadcast use vstd::multiset::group_multiset_axioms;
    broadcast use vstd::multiset::lemma_difference_count;

    assert(missing_after =~= required.difference_with(offered_before.insert(offered)));
}

/// Whether every required device extension is offered by the device, given
/// the names of the extensions the device offers. Each offered name strikes
/// one occurrence of itself off the required list; the check passes when
/// nothing is left, that is, when no name is required more often than it
/// is offered.
pub fn check_device_extension_support(offered: &Vec<Vec<u8>>) -> (r: bool)
    requires
        all_valid_c_names(offered@),
    ensures
        r == required_device_extensions().to_multiset().subset_of(c_names(offered@).to_multiset()),
        r == c_names(offered@).contains("VK_KHR_swapchain"@),
{
    broadcast use vstd::seq_lib::group_to_multiset_ensures;
    broadcast use vstd::multiset::group_multiset_axioms;
    broadcast use vstd::multiset::lemma_difference_count;

    let mut extensions = device_extensions();
    let ghost required = texts(extensions@).to_multiset();
    let mut i: usize = 0;
    proof {
        assert(c_names(offered@.take(0)) =~= Seq::<Seq<char>>::empty());
        assert(texts(extensions@).to_multiset() =~= required.difference_with(
            c_names(offered@.take(0)).to_multiset(),
        ));
    }
    while i < offered.len()
        invariant
            i <= offered@.len(),
            all_valid_c_names(offered@),
            required == required_device_extensions().to_multiset(),
            texts(extensions@).to_multiset() == required.difference_with(
                c_names(offered@.take(i as int)).to_multiset(),
            ),
        decreases offered@.len() - i,
    {
        let name = char2str(offered[i].as_slice());
        let ghost missing_before = texts(extensions@).to_multiset();
        let ghost offered_before = c_names(offered@.take(i as int)).to_multiset();
        assert(c_names(offered@.take(i + 1)) =~= c_names(offered@.take(i as int)).push(name@));
        match position_of(&extensions, &name) {
            Some(index) => {
                let ghost old_extensions = extensions@;
                extensions.remove(index);
                assert(texts(extensions@) =~= texts(old_extensions).remove(index as int));
                assert(texts(old_extensions)[index as int] == name@);
                proof {
                    texts(old_extensions).to_multiset_ensures();
                }
                assert(texts(old_extensions).remove(index as int).to_multiset()
                    =~= texts(old_extensions).to_multiset().remove(name@));
            },
            None => {
                assert(!texts(extensions@).contains(name@));
                proof {
                    texts(extensions@).to_multiset_ensures();
                }
                assert(texts(extensions@).to_multiset().count(name@) == 0);
            },
        }
        proof {
            lemma_match_one(
                missing_before,
                required,
                offered_before,
                name@,
                texts(extensions@).to_multiset(),
            );
            c_names(offered@.take(i as int)).to_multiset_ensures();
            assert(c_names(offered@.take(i + 1)).to_multiset() =~= offered_before.insert(name@));
        }
        i = i + 1;
    }
    proof {
        assert(offered@.take(offered@.len() as int) =~= offered@);
        let offered_names = c_names(offered@).to_multiset();
        texts(extensions@).to_multiset_ensures();
        if extensions.len() == 0 {
            assert forall|v: Seq<char>| required.count(v) <= offered_names.count(v) by {
                assert(texts(extensions@).to_multiset().count(v) == 0);
            }
        } else {
            let v = texts(extensions@)[0];
            assert(texts(extensions@).contains(v));
            assert(texts(extensions@).to_multiset().count(v) > 0);
        }
    }
    proof {
        lemma_swap_chain_extension_decides(offered@);
    }
    extensions.len() == 0
}

/// When no name is required twice, the extension check's multiset
/// inclusion says no more than that every required name is offered.
pub proof fn lemma_inclusion_without_repeats(required: Seq<Seq<char>>, offered: Seq<Seq<char>>)
    requires
        required.no_duplicates(),
    ensures
        required.to_multiset().subset_of(offered.to_multiset()) <==> forall|i: int|
            0 <= i < required.len() ==> offered.contains(#[trigger] required[i]),
{
    broadcast use vstd::seq_lib::group_to_multiset_ensures;

    required.to_multiset_ensures();
    offered.to_multiset_ensures();
    required.lemma_multiset_has_no_duplicates();
    if required.to_multiset().subset_of(offered.to_multiset()) {
        assert forall|i: int| 0 <= i < required.len() implies offered.contains(
            #[trigger] required[i],
        ) by {
            assert(required.contains(required[i]));
            assert(required.to_multiset().count(required[i]) > 0);
            assert(offered.to_multiset().count(required[i]) > 0);
        }
    }
    if forall|i: int| 0 <= i < required.len() ==> offered.contains(#[trigger] required[i]) {
        assert forall|v: Seq<char>|
            required.to_multiset().count(v) <= offered.to_multiset().count(v) by {
            if required.to_multiset().count(v) > 0 {
                assert(required.contains(v));
                let i = choose|i: int| 0 <= i < required.len() && required[i] == v;
                assert(offered.contains(required[i]));
            }
        }
    }
}

/// The device offers what the application needs exactly when one of the
/// names it reports is the swap chain extension.
pub proof fn lemma_swap_chain_extension_decides(offered: Seq<Vec<u8>>)
    ensures
        required_device_extensions().to_multiset().subset_of(c_names(offered).to_multiset())
            <==> c_names(offered).contains("VK_KHR_swapchain"@),
{
    let required = required_device_extensions();
    assert(required.no_duplicates());
    lemma_inclusion_without_repeats(required, c_names(offered));
    assert(required[0] == "VK_KHR_swapchain"@);
}

/// The layers that validation needs.
pub open spec fn required_validation_layers() -> Seq<Seq<char>> {
    seq!["VK_LAYER_KHRONOS_validation"@]
}

/// The names of the validation layers the application enables in debug
/// builds.
pub fn validation_layers() -> (r: Vec<String>)
    ensures
        texts(r@) == required_validation_layers(),
{
    let mut names: Vec<String> = Vec::new();
    names.push("VK_LAYER_KHRONOS_validation".to_owned());
    assert(texts(names@) =~= required_validation_layers());
    names
}

/// Whether every validation layer is among the layers that the Vulkan
/// installation offers, given the names of those layers.
pub fn check_validation_layer_support(offered: &Vec<Vec<u8>>) -> (r: bool)
    requires
        all_valid_c_names(offered@),
    ensures
        r == forall|i: int|
            0 <= i < required_validation_layers().len() ==> c_names(offered@).contains(
                #[trigger] required_validation_layers()[i],
            ),
        r == c_names(offered@).contains("VK_LAYER_KHRONOS_validation"@),
{
    let layers = validation_layers();
    proof {
        let names = c_names(offered@);
        let required = required_validation_layers();
        assert(required.len() == 1 && required[0] == "VK_LAYER_KHRONOS_validation"@);
        assert((forall|i: int| 0 <= i < required.len() ==> names.contains(#[trigger] required[i]))
            <==> names.contains(required[0]));
    }
    let mut k: usize = 0;
    while k < layers.len()
        invariant
            k <= layers@.len(),
            texts(layers@) == required_validation_layers(),
            all_valid_c_names(offered@),
            forall|i: int| 0 <= i < k ==> c_names(offered@).contains(#[trigger] texts(layers@)[i]),
        decreases layers@.len() - k,
    {
        let mut layer_found = false;
        let mut j: usize = 0;
        while j < offered.len()
            invariant
                j <= offered@.len(),
                k < layers@.len(),
                all_valid_c_names(offered@),
                layer_found <==> exists|m: int| 0 <= m < j && c_name(offered@[m]@) == layers@[k as int]@,
            decreases offered@.len() - j,
        {
            if char2str(offered[j].as_slice()) == layers[k] {
                layer_found = true;
            }
            j = j + 1;
        }
        if !layer_found {
            proof {
                assert(texts(layers@)[k as int] == layers@[k as int]@);
                if c_names(offered@).contains(texts(layers@)[k as int]) {
                    let m = choose|m: int|
                        0 <= m < c_names(offered@).len() && c_names(offered@)[m] == texts(layers@)[k as int];
                    assert(c_name(offered@[m]@) == layers@[k as int]@);
                }
                assert(texts(layers@).len() == layers@.len());
                assert(required_validation_layers().len() == 1);
                assert(k == 0);
                assert(texts(layers@)[0] == "VK_LAYER_KHRONOS_validation"@);
            }
            return false;
        }
        proof {
            let m = choose|m: int| 0 <= m < offered@.len() && c_name(offered@[m]@) == layers@[k as int]@;
            assert(c_names(offered@)[m] == texts(layers@)[k as int]);
        }
        k = k + 1;
    }
    true
}

} // verus!
