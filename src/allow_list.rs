use vstd::prelude::*;

verus! {

/// One statistic of a fetched profile: a name and its integer value.
pub struct Stat {
    pub name: String,
    pub value: i32,
}

impl View for Stat {
    type V = (Seq<char>, i32);

    open spec fn view(&self) -> (Seq<char>, i32) {
        (self.name@, self.value)
    }
}

impl Stat {
    pub fn new(name: String, value: i32) -> (r: Stat)
        ensures
            r@ == (name@, value),
    {
        Stat { name, value }
    }

    /// A copy of the statistic, field for field.
    pub fn duplicate(&self) -> (r: Stat)
        ensures
            r@ == self@,
    {
        Stat { name: self.name.clone(), value: self.value }
    }
}

/// The statistic names that are kept: the accumulated play time of each of the nine classes.
pub open spec fn allowed_names() -> Seq<Seq<char>> {
    seq![
        "Scout.accum.iPlayTime"@,
        "Soldier.accum.iPlayTime"@,
        "Spy.accum.iPlayTime"@,
        "Pyro.accum.iPlayTime"@,
        "Medic.accum.iPlayTime"@,
        "Demoman.accum.iPlayTime"@,
        "Heavy.accum.iPlayTime"@,
        "Engineer.accum.iPlayTime"@,
        "Sniper.accum.iPlayTime"@,
    ]
}

pub open spec fn is_allowed_name(name: Seq<char>) -> bool {
    allowed_names().contains(name)
}

/// The entries of a payload whose names are allowed, in payload order.
pub open spec fn allowed_stats(p: Seq<(Seq<char>, i32)>) -> Seq<(Seq<char>, i32)>
    decreases p.len(),
{
    if p.len() == 0 {
        p
    } else {
        let rest = allowed_stats(p.drop_last());
        if is_allowed_name(p.last().0) {
            rest.push(p.last())
        } else {
            rest
        }
    }
}

/// The allowed statistic names as owned strings, in the order of `allowed_names`.
pub fn class_play_time_names() -> (r: Vec<String>)
    ensures
        r@.map_values(|s: String| s@) == allowed_names(),
{
    let r = vec![
        String::from_str("Scout.accum.iPlayTime"),
        String::from_str("Soldier.accum.iPlayTime"),
        String::from_str("Spy.accum.iPlayTime"),
        String::from_str("Pyro.accum.iPlayTime"),
        String::from_str("Medic.accum.iPlayTime"),
        String::from_str("Demoman.accum.iPlayTime"),
        String::from_str("Heavy.accum.iPlayTime"),
        String::from_str("Engineer.accum.iPlayTime"),
        String::from_str("Sniper.accum.iPlayTime"),
    ];
    assert(r@.map_values(|s: String| s@) =~= allowed_names());
    r
}

/// Whether a statistic name is one of the allowed names.
pub fn is_allowed(name: &String) -> (r: bool)
    ensures
        r == is_allowed_name(name@),
{
    let names = class_play_time_names();
    let ghost views = names@.map_values(|s: String| s@);
    let mut i: usize = 0;
    while i < names.len()
        invariant
            i <= names.len(),
            views == allowed_names(),
            views == names@.map_values(|s: String| s@),
            forall|j: int| 0 <= j < i ==> views[j] != name@,
        decreases names.len() - i,
    {
        assert(views[i as int] == names@[i as int]@);
        if names[i] == *name {
            return true;
        }
        i = i + 1;
    }
    false
}

/// Keeps the statistics of a payload whose names are allowed, in payload order.
pub fn filter_allowed(payload: &Vec<Stat>) -> (r: Vec<Stat>)
    ensures
        r@.map_values(|s: Stat| s@) == allowed_stats(payload@.map_values(|s: Stat| s@)),
{
    let ghost pv = payload@.map_values(|s: Stat| s@);
    let mut r: Vec<Stat> = Vec::new();
    let mut i: usize = 0;
    while i < payload.len()
        invariant
            i <= payload.len(),
            pv == payload@.map_values(|s: Stat| s@),
            r@.map_values(|s: Stat| s@) == allowed_stats(pv.subrange(0, i as int)),
        decreases payload.len() - i,
    {
        let ghost before = r@.map_values(|s: Stat| s@);
        assert(pv.subrange(0, i + 1).drop_last() =~= pv.subrange(0, i as int));
        if is_allowed(&payload[i].name) {
            r.push(payload[i].duplicate());
            assert(r@.map_values(|s: Stat| s@) =~= before.push(pv[i as int]));
        }
        i = i + 1;
    }
    assert(pv.subrange(0, payload.len() as int) =~= pv);
    r
}

} // verus!
