use vstd::prelude::*;

verus! {

/// Whether two strings hold the same characters.
pub fn same_text(a: &str, b: &str) -> (r: bool)
    ensures
        r == (a@ == b@),
{
    let x: String = a.to_owned();
    let y: String = b.to_owned();
    x == y
}

/// An owned copy of an optional string.
pub fn copy_opt(o: &Option<String>) -> (r: Option<String>)
    ensures
        r == *o,
{
    match o {
        Some(s) => Some(s.clone()),
        None => None,
    }
}

/// The given string if there is one, else the current one.
pub fn pick_text(given: &Option<String>, current: &String) -> (r: String)
    ensures
        r == (match *given {
            Some(s) => s,
            None => *current,
        }),
{
    match given {
        Some(s) => s.clone(),
        None => current.clone(),
    }
}

/// The given optional string if there is one, else the current one.
pub fn pick_opt(given: &Option<String>, current: &Option<String>) -> (r: Option<String>)
    ensures
        r == (match *given {
            Some(s) => Some(s),
            None => *current,
        }),
{
    match given {
        Some(s) => Some(s.clone()),
        None => copy_opt(current),
    }
}

/// An owned copy of a list of tags, order kept.
pub fn copy_tags(v: &Vec<String>) -> (r: Vec<String>)
    ensures
        r@ == v@,
{
    let mut out: Vec<String> = Vec::new();
    let mut i: usize = 0;
    while i < v.len()
        invariant
            i <= v.len(),
            out@ == v@.take(i as int),
        decreases v.len() - i,
    {
        out.push(v[i].clone());
        assert(out@ =~= v@.take(i as int + 1));
        i = i + 1;
    }
    assert(v@.take(v@.len() as int) =~= v@);
    out
}

} // verus!
