//! Trading periods, which the service sends either as an object keyed by
//! session (`pre`, `regular`, `post`) or as a bare array of day groups.
use vstd::prelude::*;

verus! {

/// One trading session of one day.
#[derive(Clone, Debug, PartialEq, Eq)]
pub struct PeriodInfo {
    pub timezone: String,
    pub start: u32,
    pub end: u32,
    pub gmtoffset: i32,
}

/// The sessions of the current trading day.
#[derive(Clone, Debug, PartialEq, Eq)]
pub struct CurrentTradingPeriod {
    pub pre: PeriodInfo,
    pub regular: PeriodInfo,
    pub post: PeriodInfo,
}

/// Trading sessions by kind, each a list of day groups.
#[derive(Clone, Debug, PartialEq, Eq)]
pub struct TradingPeriods {
    pub pre: Option<Vec<Vec<PeriodInfo>>>,
    pub regular: Option<Vec<Vec<PeriodInfo>>>,
    pub post: Option<Vec<Vec<PeriodInfo>>>,
}

/// The keys of the object form.
#[derive(Clone, Copy, Debug, PartialEq, Eq, Structural)]
pub enum PeriodField {
    Pre,
    Regular,
    Post,
}

/// All sessions of all groups, group after group.
pub open spec fn concat_groups(gs: Seq<Vec<PeriodInfo>>) -> Seq<PeriodInfo>
    decreases gs.len(),
{
    if gs.len() == 0 {
        Seq::empty()
    } else {
        gs[0]@ + concat_groups(gs.drop_first())
    }
}

/// No key repeats among the first `k` entries.
pub open spec fn distinct_keys(fs: Seq<(PeriodField, Vec<Vec<PeriodInfo>>)>, k: int) -> bool {
    forall|i: int, j: int| 0 <= i < j < k ==> fs[i].0 != fs[j].0
}

/// The value given for `key`, if an entry has it.
pub open spec fn given(
    fs: Seq<(PeriodField, Vec<Vec<PeriodInfo>>)>,
    key: PeriodField,
    v: Option<Vec<Vec<PeriodInfo>>>,
) -> bool {
    match v {
        Some(x) => exists|i: int| 0 <= i < fs.len() && fs[i].0 == key && fs[i].1 == x,
        None => forall|i: int| 0 <= i < fs.len() ==> fs[i].0 != key,
    }
}

proof fn lemma_given_push(
    fs: Seq<(PeriodField, Vec<Vec<PeriodInfo>>)>,
    e: (PeriodField, Vec<Vec<PeriodInfo>>),
    key: PeriodField,
    v: Option<Vec<Vec<PeriodInfo>>>,
)
    requires
        given(fs, key, v),
        e.0 == key ==> v is None,
    ensures
        given(fs.push(e), key, if e.0 == key { Some(e.1) } else { v }),
{
    let fs2 = fs.push(e);
    if e.0 == key {
        assert(fs2[fs.len() as int] == e);
    } else {
        match v {
            Some(x) => {
                let i = choose|i: int| 0 <= i < fs.len() && fs[i].0 == key && fs[i].1 == x;
                assert(fs2[i] == fs[i]);
            },
            None => {
                assert forall|i: int| 0 <= i < fs2.len() implies fs2[i].0 != key by {
                    if i < fs.len() {
                        assert(fs2[i] == fs[i]);
                    }
                }
            },
        }
    }
}

proof fn lemma_repeat(fs: Seq<(PeriodField, Vec<Vec<PeriodInfo>>)>, i: int, k: int)
    requires
        0 <= i < k < fs.len(),
        fs[i].0 == fs[k].0,
    ensures
        !distinct_keys(fs, k + 1),
        !distinct_keys(fs, fs.len() as int),
{
}

impl PeriodField {
    /// The key as the service spells it.
    pub fn name(&self) -> (r: &'static str) {
        match self {
            PeriodField::Pre => "pre",
            PeriodField::Regular => "regular",
            PeriodField::Post => "post",
        }
    }
}

impl Default for TradingPeriods {
    fn default() -> (r: TradingPeriods)
        ensures
            r.pre is None && r.regular is None && r.post is None,
    {
        TradingPeriods { pre: None, regular: None, post: None }
    }
}

impl TradingPeriods {
    /// The array form: all groups merged into one group of regular sessions.
    pub fn from_groups(groups: Vec<Vec<PeriodInfo>>) -> (r: TradingPeriods)
        ensures
            r.pre is None,
            r.post is None,
            r.regular is Some,
            r.regular->0@.len() == 1,
            r.regular->0@[0]@ == concat_groups(groups@),
    {
        let mut rest = groups;
        let mut merged: Vec<PeriodInfo> = Vec::new();
        while rest.len() > 0
            invariant
                merged@ + concat_groups(rest@) == concat_groups(groups@),
            decreases rest@.len(),
        {
            let ghost before = rest@;
            let mut g = rest.remove(0);
            assert(before.drop_first() =~= rest@);
            assert(merged@ + g@ + concat_groups(rest@) =~= merged@ + concat_groups(before));
            merged.append(&mut g);
        }
        assert(merged@ =~= concat_groups(groups@));
        TradingPeriods { pre: None, regular: Some(vec![merged]), post: None }
    }

    /// The object form, from its entries in the order they came. A key that
    /// comes twice is refused: the result names it.
    pub fn from_fields(fields: Vec<(PeriodField, Vec<Vec<PeriodInfo>>)>) -> (r: Result<
        TradingPeriods,
        PeriodField,
    >)
        ensures
            r is Ok <==> distinct_keys(fields@, fields@.len() as int),
            r matches Ok(t) ==> {
                &&& given(fields@, PeriodField::Pre, t.pre)
                &&& given(fields@, PeriodField::Regular, t.regular)
                &&& given(fields@, PeriodField::Post, t.post)
            },
            r matches Err(f) ==> exists|j: int|
                0 <= j < fields@.len() && distinct_keys(fields@, j) && !distinct_keys(
                    fields@,
                    j + 1,
                ) && fields@[j].0 == f,
    {
        let total: usize = fields.len();
        let mut k: usize = 0;
        while k < total
            invariant
                total == fields@.len(),
                k <= total,
                distinct_keys(fields@, k as int),
            decreases total - k,
        {
            let mut i: usize = 0;
            while i < k
                invariant
                    total == fields@.len(),
                    i <= k < total,
                    distinct_keys(fields@, k as int),
                    forall|m: int| 0 <= m < i ==> fields@[m].0 != fields@[k as int].0,
                decreases k - i,
            {
                if fields[i].0 == fields[k].0 {
                    proof {
                        lemma_repeat(fields@, i as int, k as int);
                    }
                    return Err(fields[k].0);
                }
                i += 1;
            }
            k += 1;
        }
        let ghost all = fields@;
        let mut rest = fields;
        let mut out = TradingPeriods { pre: None, regular: None, post: None };
        let mut k: usize = 0;
        while rest.len() > 0
            invariant
                total == all.len(),
                k + rest@.len() == total,
                rest@ == all.subrange(k as int, all.len() as int),
                distinct_keys(all, all.len() as int),
                given(all.subrange(0, k as int), PeriodField::Pre, out.pre),
                given(all.subrange(0, k as int), PeriodField::Regular, out.regular),
                given(all.subrange(0, k as int), PeriodField::Post, out.post),
            decreases rest@.len(),
        {
            let ghost pre_k = all.subrange(0, k as int);
            let (key, value) = rest.remove(0);
            assert(all[k as int] == (key, value));
            assert(all.subrange(0, k + 1) =~= pre_k.push((key, value)));
            proof {
                assert forall|i: int| 0 <= i < pre_k.len() implies pre_k[i].0 != key by {
                    assert(pre_k[i] == all[i]);
                }
                lemma_given_push(pre_k, (key, value), PeriodField::Pre, out.pre);
                lemma_given_push(pre_k, (key, value), PeriodField::Regular, out.regular);
                lemma_given_push(pre_k, (key, value), PeriodField::Post, out.post);
            }
            match key {
                PeriodField::Pre => out.pre = Some(value),
                PeriodField::Regular => out.regular = Some(value),
                PeriodField::Post => out.post = Some(value),
            }
            assert(rest@ =~= all.subrange(k + 1, all.len() as int));
            k += 1;
        }
        assert(all.subrange(0, k as int) =~= all);
        Ok(out)
    }
}

} // verus!
