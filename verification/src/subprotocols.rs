//! Subprotocol negotiation: the server's registry of names, and the choice
//! among the names that a client offers.

use crate::ascii::text_bytes;
use crate::headers::has_name;
use crate::tokens::{list_names, lists_name};
use crate::wire::{header_views, HeaderView, RawHeader, RawRequest};
use crate::ascii::eq_ignore_ascii_case;
use vstd::prelude::*;

verus! {

/// The name of the header in which a client lists the subprotocols it offers.
pub open spec fn protocol_header() -> Seq<char> {
    "sec-websocket-protocol"@
}

/// No name occurs twice.
pub open spec fn distinct(names: Seq<Seq<char>>) -> bool {
    forall|i: int, j: int| 0 <= i < j < names.len() ==> names[i] != names[j]
}

/// The names in the order of their first occurrence, each once.
pub open spec fn unique(names: Seq<Seq<char>>) -> Seq<Seq<char>>
    decreases names.len(),
{
    if names.len() == 0 {
        names
    } else {
        let before = unique(names.drop_last());
        if before.contains(names.last()) {
            before
        } else {
            before.push(names.last())
        }
    }
}

/// The texts of a list of strings.
pub open spec fn texts(names: Seq<String>) -> Seq<Seq<char>> {
    Seq::new(names.len(), |i: int| names[i]@)
}

/// The subprotocols that a server supports, in its order of preference.
#[derive(Debug, PartialEq, Eq)]
pub struct ProtocolRegistry {
    names: Vec<String>,
}

impl View for ProtocolRegistry {
    type V = Seq<Seq<char>>;

    closed spec fn view(&self) -> Seq<Seq<char>> {
        texts(self.names@)
    }
}

impl Default for ProtocolRegistry {
    /// The registry without names: no subprotocol is ever agreed on.
    fn default() -> (r: ProtocolRegistry)
        ensures
            r@ == Seq::<Seq<char>>::empty(),
    {
        let r = ProtocolRegistry { names: Vec::new() };
        assert(r@ =~= Seq::<Seq<char>>::empty());
        r
    }
}

impl ProtocolRegistry {
    #[verifier::type_invariant]
    spec fn well_formed(&self) -> bool {
        distinct(texts(self.names@))
    }

    /// A registry of the given names, in the given order. A name that is
    /// given more than once counts where it stands first.
    pub fn new(names: Vec<String>) -> (r: ProtocolRegistry)
        ensures
            r@ == unique(texts(names@)),
            distinct(r@),
    {
        let mut kept: Vec<String> = Vec::new();
        let mut i: usize = 0;
        assert(texts(names@).take(0) =~= Seq::<Seq<char>>::empty());
        assert(texts(kept@) =~= Seq::<Seq<char>>::empty());
        while i < names.len()
            invariant
                i <= names.len(),
                texts(kept@) == unique(texts(names@).take(i as int)),
                distinct(texts(kept@)),
            decreases names.len() - i,
        {
            let ghost before = texts(kept@);
            assert(texts(names@).take(i + 1).drop_last() =~= texts(names@).take(i as int));
            assert(texts(names@).take(i + 1).last() == names@[i as int]@);
            let mut seen = false;
            let mut k: usize = 0;
            while k < kept.len()
                invariant
                    k <= kept.len(),
                    i < names.len(),
                    seen == exists|j: int| 0 <= j < k && kept@[j]@ == names@[i as int]@,
                decreases kept.len() - k,
            {
                if kept[k] == names[i] {
                    seen = true;
                }
                k += 1;
            }
            proof {
                if seen {
                    let j = choose|j: int| 0 <= j < kept@.len() && kept@[j]@ == names@[i as int]@;
                    assert(before[j] == names@[i as int]@);
                } else {
                    assert forall|j: int| 0 <= j < before.len() implies before[j] != names@[
                        i as int]@ by {
                        assert(kept@[j]@ == before[j]);
                    }
                }
            }
            if !seen {
                kept.push(names[i].clone());
                assert(texts(kept@) =~= before.push(names@[i as int]@));
            }
            i += 1;
        }
        assert(texts(names@).take(i as int) =~= texts(names@));
        ProtocolRegistry { names: kept }
    }

    /// The number of names in the registry, none of which stands twice.
    pub fn len(&self) -> (n: usize)
        ensures
            n == self@.len(),
            distinct(self@),
    {
        proof {
            use_type_invariant(self);
        }
        self.names.len()
    }

    /// The name at place `index` of the server's order of preference.
    pub fn name(&self, index: usize) -> (r: &String)
        requires
            index < self@.len(),
        ensures
            r@ == self@[index as int],
    {
        &self.names[index]
    }

}

/// The client offers `name`: some header that lists subprotocols lists it.
pub open spec fn offered(headers: Seq<HeaderView>, name: Seq<char>) -> bool {
    exists|i: int|
        0 <= i < headers.len() && has_name(#[trigger] headers[i], protocol_header()) && lists_name(
            headers[i].value,
            text_bytes(name),
        )
}

/// The first name of the registry, from place `start` on, that the client offers.
pub open spec fn agreed_from(registry: Seq<Seq<char>>, headers: Seq<HeaderView>, start: int) -> Option<
    Seq<char>,
>
    decreases registry.len() - start,
{
    if start < 0 || start >= registry.len() {
        None
    } else if offered(headers, registry[start]) {
        Some(registry[start])
    } else {
        agreed_from(registry, headers, start + 1)
    }
}

/// The subprotocol that server and client agree on: the first name in the
/// server's order of preference that the client offers, if there is one.
pub open spec fn agreed(registry: Seq<Seq<char>>, headers: Seq<HeaderView>) -> Option<Seq<char>> {
    agreed_from(registry, headers, 0)
}

/// The server's order of preference decides: the name agreed on, from place
/// `start` on, is offered by the client and stands in the registry before
/// every other name that the client offers; no name is agreed on only where
/// the client offers none of the registry's names.
pub proof fn agreed_is_first_offered(
    registry: Seq<Seq<char>>,
    headers: Seq<HeaderView>,
    start: int,
)
    requires
        0 <= start,
    ensures
        match agreed_from(registry, headers, start) {
            Some(name) => exists|k: int|
                start <= k < registry.len() && #[trigger] registry[k] == name && offered(
                    headers,
                    name,
                ) && forall|j: int| start <= j < k ==> !offered(headers, #[trigger] registry[j]),
            None => forall|j: int|
                start <= j < registry.len() ==> !offered(headers, #[trigger] registry[j]),
        },
    decreases registry.len() - start,
{
    if start < registry.len() {
        if offered(headers, registry[start]) {
            assert(registry[start] == registry[start]);
        } else {
            agreed_is_first_offered(registry, headers, start + 1);
            match agreed_from(registry, headers, start + 1) {
                Some(name) => {
                    let k = choose|k: int|
                        start + 1 <= k < registry.len() && #[trigger] registry[k] == name
                            && offered(headers, name) && forall|j: int|
                            start + 1 <= j < k ==> !offered(headers, #[trigger] registry[j]);
                    assert(registry[k] == name);
                },
                None => {},
            }
        }
    }
}

/// Whether the client offers `name` in one of its headers.
pub fn offers(headers: &[RawHeader], name: &str) -> (r: bool)
    ensures
        r == offered(header_views(headers@), name@),
{
    let header_name = "sec-websocket-protocol";
    let mut i: usize = 0;
    while i < headers.len()
        invariant
            i <= headers.len(),
            header_name@ == protocol_header(),
            forall|j: int|
                0 <= j < i ==> !(has_name(#[trigger] header_views(headers@)[j], protocol_header())
                    && lists_name(header_views(headers@)[j].value, text_bytes(name@))),
        decreases headers.len() - i,
    {
        let h = &headers[i];
        assert(header_views(headers@)[i as int] == h@);
        if eq_ignore_ascii_case(h.name.as_str().as_bytes(), header_name.as_bytes()) && list_names(
            h.value.as_slice(),
            name.as_bytes(),
        ) {
            return true;
        }
        i += 1;
    }
    false
}

/// Chooses the subprotocol for a request: the first name of the registry
/// that the request offers. That no name is agreed on is no error.
pub fn negotiate_request(registry: &ProtocolRegistry, request: &RawRequest) -> (r: Option<String>)
    ensures
        crate::errors::opt_text(r) == agreed(registry@, request@.headers),
{
    let mut k: usize = 0;
    while k < registry.len()
        invariant
            k <= registry@.len(),
            agreed(registry@, request@.headers) == agreed_from(
                registry@,
                request@.headers,
                k as int,
            ),
        decreases registry@.len() - k,
    {
        let name = registry.name(k);
        if offers(request.headers.as_slice(), name.as_str()) {
            return Some(name.clone());
        }
        k += 1;
    }
    None
}

} // verus!
