use vstd::prelude::*;

verus! {

/// Collects the robot's system status (memory, temperature, battery).
pub struct SystemInfo {}

/// `i` is the first position of `labels` that reads `label`.
pub open spec fn is_first_labelled(labels: Seq<String>, label: Seq<char>, i: int) -> bool {
    &&& 0 <= i < labels.len()
    &&& labels[i]@ == label
    &&& forall|j: int| 0 <= j < i ==> labels[j]@ != label
}

impl SystemInfo {
    /// Position of the first hardware component labelled "CPU": the one
    /// whose temperature is reported as the CPU temperature.
    pub fn cpu_component(labels: &Vec<String>) -> (r: Option<usize>)
        ensures
            match r {
                Some(i) => is_first_labelled(labels@, "CPU"@, i as int),
                None => forall|j: int| 0 <= j < labels@.len() ==> labels@[j]@ != "CPU"@,
            },
    {
        let cpu = "CPU".to_owned();
        let mut i: usize = 0;
        while i < labels.len()
            invariant
                i <= labels@.len(),
                cpu@ == "CPU"@,
                forall|j: int| 0 <= j < i ==> labels@[j]@ != "CPU"@,
            decreases labels@.len() - i,
        {
            if labels[i] == cpu {
                return Some(i);
            }
            i = i + 1;
        }
        None
    }
}

} // verus!
