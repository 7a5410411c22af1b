//! The result of a loudness analysis, and how gains are derived from it.

use vstd::prelude::*;
use crate::error::Error;
use crate::stream::ChannelLayout;

verus! {

/// One value per slot of a channel layout: a single value for all channels
/// where they are linked, one value per channel where they are independent.
///
/// An analyzer produces a measurement of loudness values; resolving it gives
/// a measurement of gains of the same shape.
#[derive(Clone, Debug, PartialEq)]
pub enum Measurement<M> {
    /// The value that all channels share.
    Linked(M),
    /// The value of each channel, in channel order.
    PerChannel(Vec<M>),
}

/// Whether `resolver` has no gain for `value`, whenever it is asked.
pub open spec fn never_resolves<M, G, F: Fn(&M) -> Option<G>>(resolver: F, value: M) -> bool {
    forall|out: Option<G>| #[trigger] call_ensures(resolver, (&value,), out) ==> out is None
}

/// Whether `resolver` has a gain for `value`, whenever it is asked.
pub open spec fn always_resolves<M, G, F: Fn(&M) -> Option<G>>(resolver: F, value: M) -> bool {
    forall|out: Option<G>| #[trigger] call_ensures(resolver, (&value,), out) ==> out is Some
}

impl<M> Measurement<M> {
    /// The values by slot.
    pub open spec fn values(&self) -> Seq<M> {
        match self {
            Measurement::Linked(m) => seq![*m],
            Measurement::PerChannel(v) => v@,
        }
    }

    /// Whether this measurement has the shape that `layout` calls for.
    pub open spec fn fits(&self, layout: ChannelLayout) -> bool {
        match self {
            Measurement::Linked(_) => !layout.independent,
            Measurement::PerChannel(v) => layout.independent && v@.len() == layout.channels,
        }
    }

    /// Takes the values that an analyzer produced for `layout`, one per
    /// slot. Any other number of values is refused.
    pub fn from_values(values: Vec<M>, layout: ChannelLayout) -> (measurement: Result<Measurement<M>, Error>)
        ensures
            values@.len() == layout.spec_slots() ==> {
                &&& measurement matches Ok(m)
                &&& m.fits(layout)
                &&& m.values() == values@
            },
            values@.len() != layout.spec_slots() ==> measurement == Err::<Measurement<M>, Error>(
                Error::MalformedStream,
            ),
    {
        let mut values = values;
        if layout.independent {
            if values.len() == layout.channels as usize {
                Ok(Measurement::PerChannel(values))
            } else {
                Err(Error::MalformedStream)
            }
        } else if values.len() == 1 {
            match values.pop() {
                Some(m) => {
                    Ok(Measurement::Linked(m))
                },
                None => Err(Error::MalformedStream),
            }
        } else {
            Err(Error::MalformedStream)
        }
    }

    /// Number of values.
    pub fn len(&self) -> (n: usize)
        ensures
            n == self.values().len(),
    {
        match self {
            Measurement::Linked(_) => 1,
            Measurement::PerChannel(v) => v.len(),
        }
    }

    /// The value of `slot`.
    pub fn value(&self, slot: usize) -> (value: &M)
        requires
            slot < self.values().len(),
        ensures
            *value == self.values()[slot as int],
    {
        match self {
            Measurement::Linked(m) => m,
            Measurement::PerChannel(v) => &v[slot],
        }
    }

    /// Turns every value into another, keeping the shape: a sum into a
    /// mean, or a power into a level.
    pub fn map<N, F: Fn(&M) -> N>(&self, convert: F) -> (mapped: Measurement<N>)
        requires
            forall|i: int| 0 <= i < self.values().len() ==> call_requires(convert, (&#[trigger] self.values()[i],)),
        ensures
            mapped is Linked <==> self is Linked,
            mapped.values().len() == self.values().len(),
            forall|i: int|
                0 <= i < self.values().len() ==> call_ensures(
                    convert,
                    (&self.values()[i],),
                    #[trigger] mapped.values()[i],
                ),
    {
        match self {
            Measurement::Linked(m) => {
                assert(self.values()[0] == *m);
                let n = convert(m);
                Measurement::Linked(n)
            },
            Measurement::PerChannel(v) => {
                let mut values: Vec<N> = Vec::new();
                let mut i: usize = 0;
                assert forall|j: int| 0 <= j < v.len() implies call_requires(
                    convert,
                    (&#[trigger] v@[j],),
                ) by {
                    assert(v@[j] == self.values()[j]);
                }
                while i < v.len()
                    invariant
                        i <= v.len(),
                        values.len() == i,
                        self.values() == v@,
                        forall|j: int| 0 <= j < v.len() ==> call_requires(convert, (&#[trigger] v@[j],)),
                        forall|j: int| 0 <= j < i ==> call_ensures(convert, (&v@[j],), #[trigger] values@[j]),
                    decreases v.len() - i,
                {
                    values.push(convert(&v[i]));
                    i = i + 1;
                }
                Measurement::PerChannel(values)
            },
        }
    }

    /// Derives one gain from each value.
    ///
    /// `resolver` computes the gain for one measured value and returns
    /// `None` where the value admits none, as a zero does that would have to
    /// be divided by. One such value fails the whole resolution: no gain is
    /// made up for it. The resolution succeeds where every value has a gain
    /// and fails where one value never has.
    pub fn resolve<G, F: Fn(&M) -> Option<G>>(&self, resolver: F) -> (gains: Result<Measurement<G>, Error>)
        requires
            forall|i: int| 0 <= i < self.values().len() ==> call_requires(resolver, (&#[trigger] self.values()[i],)),
        ensures
            match gains {
                Ok(g) => {
                    &&& g is Linked <==> self is Linked
                    &&& g.values().len() == self.values().len()
                    &&& forall|i: int|
                        0 <= i < self.values().len() ==> call_ensures(
                            resolver,
                            (&self.values()[i],),
                            Some(#[trigger] g.values()[i]),
                        )
                },
                Err(fault) => {
                    &&& fault == Error::DegenerateMeasurement
                    &&& exists|i: int|
                        0 <= i < self.values().len() && call_ensures(
                            resolver,
                            (&#[trigger] self.values()[i],),
                            None::<G>,
                        )
                },
            },
            (exists|i: int| 0 <= i < self.values().len() && #[trigger] never_resolves(resolver, self.values()[i]))
                ==> gains is Err,
            (forall|i: int| 0 <= i < self.values().len() ==> #[trigger] always_resolves(resolver, self.values()[i]))
                ==> gains is Ok,
    {
        let gains = match self {
            Measurement::Linked(m) => {
                assert(self.values()[0] == *m);
                match resolver(m) {
                    Some(g) => Ok(Measurement::Linked(g)),
                    None => Err(Error::DegenerateMeasurement),
                }
            },
            Measurement::PerChannel(v) => {
                let mut resolved: Vec<G> = Vec::new();
                let mut missing = false;
                let mut i: usize = 0;
                assert forall|j: int| 0 <= j < v.len() implies call_requires(
                    resolver,
                    (&#[trigger] v@[j],),
                ) by {
                    assert(v@[j] == self.values()[j]);
                }
                while i < v.len() && !missing
                    invariant
                        i <= v.len(),
                        resolved.len() == i,
                        self.values() == v@,
                        forall|j: int| 0 <= j < v.len() ==> call_requires(resolver, (&#[trigger] v@[j],)),
                        forall|j: int|
                            0 <= j < i ==> call_ensures(resolver, (&v@[j],), Some(#[trigger] resolved@[j])),
                        missing ==> exists|j: int|
                            0 <= j < v.len() && call_ensures(resolver, (&#[trigger] v@[j],), None::<G>),
                    decreases v.len() - i + if missing { 0int } else { 1int },
                {
                    match resolver(&v[i]) {
                        Some(g) => {
                            resolved.push(g);
                            i = i + 1;
                        },
                        None => {
                            missing = true;
                        },
                    }
                }
                if missing {
                    Err(Error::DegenerateMeasurement)
                } else {
                    Ok(Measurement::PerChannel(resolved))
                }
            },
        };
        proof {
            lemma_resolution_is_owed(resolver, self.values(), gains);
        }
        gains
    }
}

/// A resolution cannot succeed past a value that never has a gain, nor fail
/// where every value always has one.
proof fn lemma_resolution_is_owed<M, G, F: Fn(&M) -> Option<G>>(
    resolver: F,
    values: Seq<M>,
    gains: Result<Measurement<G>, Error>,
)
    requires
        match gains {
            Ok(g) => g.values().len() == values.len() && forall|i: int|
                0 <= i < values.len() ==> call_ensures(resolver, (&values[i],), Some(#[trigger] g.values()[i])),
            Err(_) => exists|i: int|
                0 <= i < values.len() && call_ensures(resolver, (&#[trigger] values[i],), None::<G>),
        },
    ensures
        (exists|i: int| 0 <= i < values.len() && #[trigger] never_resolves(resolver, values[i])) ==> gains is Err,
        (forall|i: int| 0 <= i < values.len() ==> #[trigger] always_resolves(resolver, values[i])) ==> gains is Ok,
{
    match gains {
        Ok(g) => {
            if exists|i: int| 0 <= i < values.len() && #[trigger] never_resolves(resolver, values[i]) {
                let i = choose|i: int| 0 <= i < values.len() && #[trigger] never_resolves(resolver, values[i]);
                assert(call_ensures(resolver, (&values[i],), Some(g.values()[i])));
            }
        },
        Err(_) => {
            let i = choose|i: int|
                0 <= i < values.len() && call_ensures(resolver, (&#[trigger] values[i],), None::<G>);
            if forall|i: int| 0 <= i < values.len() ==> #[trigger] always_resolves(resolver, values[i]) {
                assert(always_resolves(resolver, values[i]));
            }
        },
    }
}

} // verus!
