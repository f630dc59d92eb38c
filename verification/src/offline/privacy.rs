//! What a transaction gives away about its wallet: four heuristics.

use vstd::prelude::*;
use crate::common::psbt::TxOut;
use crate::common::script::{script_type, spec_script_type};
use crate::offline::print::{biggest_dividing_pow, dividing_pow};

verus! {

/// The coins that the references point to.
pub open spec fn spec_coins(refs: Seq<&TxOut>) -> Seq<TxOut> {
    refs.map_values(|r: &TxOut| *r)
}

/// The class of the script of output `j`.
pub open spec fn spec_class_at(outputs: Seq<TxOut>, j: int) -> Option<usize> {
    spec_script_type(outputs[j].script_pubkey@)
}

/// Two outputs have scripts of different standard classes: the set of classes
/// met among the outputs has more than one member. A script of no class does
/// not count.
pub open spec fn spec_different_script_types(outputs: Seq<TxOut>) -> bool {
    exists|j: int, k: int|
        0 <= j < outputs.len() && 0 <= k < outputs.len() && (#[trigger] spec_class_at(
            outputs,
            j,
        )) is Some && (#[trigger] spec_class_at(outputs, k)) is Some && spec_class_at(outputs, j)
            != spec_class_at(outputs, k)
}

/// Whether the outputs pay to scripts of more than one standard class.
pub fn different_script_types(outputs: &Vec<TxOut>) -> (flag: bool)
    ensures
        flag == spec_different_script_types(outputs@),
{
    let mut first: Option<usize> = None;
    let mut differ: bool = false;
    let mut i: usize = 0;
    while i < outputs.len()
        invariant
            i <= outputs.len(),
            first is None ==> forall|k: int| 0 <= k < i ==> spec_class_at(outputs@, k) is None,
            first is Some ==> exists|k: int| 0 <= k < i && spec_class_at(outputs@, k) == first,
            !differ ==> forall|k: int|
                0 <= k < i && (#[trigger] spec_class_at(outputs@, k)) is Some ==> spec_class_at(
                    outputs@,
                    k,
                ) == first,
            differ ==> spec_different_script_types(outputs@),
        decreases outputs.len() - i,
    {
        let class = script_type(&outputs[i].script_pubkey);
        assert(class == spec_class_at(outputs@, i as int));
        match class {
            Some(c) => {
                match first {
                    None => {
                        first = Some(c);
                    },
                    Some(f) => {
                        if f != c {
                            proof {
                                let k = choose|k: int|
                                    0 <= k < i && spec_class_at(outputs@, k) == first;
                                assert(spec_class_at(outputs@, k) is Some);
                                assert(spec_class_at(outputs@, i as int) is Some);
                            }
                            differ = true;
                        }
                    },
                }
            },
            None => {},
        }
        i = i + 1;
    }
    differ
}

/// Two outputs differ by three or more in the number of zeros their amounts
/// end in. An amount of zero, which every power of ten divides, does not count.
pub open spec fn spec_different_precision(outputs: Seq<TxOut>) -> bool {
    exists|j: int, k: int|
        0 <= j < outputs.len() && 0 <= k < outputs.len() && (#[trigger] outputs[j]).value > 0
            && (#[trigger] outputs[k]).value > 0 && dividing_pow(outputs[j].value as nat)
            >= dividing_pow(outputs[k].value as nat) + 3
}

/// Whether some amounts are much rounder than others: the largest power of
/// ten that divides one is a thousand times that of another, or more.
pub fn different_precision(outputs: &Vec<TxOut>) -> (flag: bool)
    ensures
        flag == spec_different_precision(outputs@),
{
    let mut range: Option<(u8, u8)> = None;
    let mut i: usize = 0;
    while i < outputs.len()
        invariant
            i <= outputs.len(),
            range is None ==> forall|k: int| 0 <= k < i ==> (#[trigger] outputs@[k]).value == 0,
            range matches Some((lo, hi)) ==> {
                &&& exists|k: int|
                    0 <= k < i && (#[trigger] outputs@[k]).value > 0 && dividing_pow(
                        outputs@[k].value as nat,
                    ) == lo
                &&& exists|k: int|
                    0 <= k < i && (#[trigger] outputs@[k]).value > 0 && dividing_pow(
                        outputs@[k].value as nat,
                    ) == hi
                &&& forall|k: int|
                    0 <= k < i && (#[trigger] outputs@[k]).value > 0 ==> lo <= dividing_pow(
                        outputs@[k].value as nat,
                    ) <= hi
            },
        decreases outputs.len() - i,
    {
        let value = outputs[i].value;
        if value > 0 {
            let d = biggest_dividing_pow(value);
            match range {
                None => {
                    range = Some((d, d));
                },
                Some((lo, hi)) => {
                    let lo2 = if d < lo { d } else { lo };
                    let hi2 = if d > hi { d } else { hi };
                    range = Some((lo2, hi2));
                },
            }
        }
        i = i + 1;
    }
    match range {
        None => false,
        Some((lo, hi)) => hi - lo >= 3,
    }
}

/// With two inputs or more, some output is smaller than every input: an input
/// could have been left out.
pub open spec fn spec_unnecessary_input(spent: Seq<TxOut>, outputs: Seq<TxOut>) -> bool {
    spent.len() > 1 && exists|o: int|
        0 <= o < outputs.len() && forall|i: int|
            0 <= i < spent.len() ==> (#[trigger] outputs[o]).value < (#[trigger] spent[i]).value
}

/// Whether, with two inputs or more, an output is smaller than the smallest
/// of the coins spent.
pub fn unnecessary_input(spent: &Vec<&TxOut>, outputs: &Vec<TxOut>) -> (flag: bool)
    ensures
        flag == spec_unnecessary_input(spec_coins(spent@), outputs@),
{
    let ghost coins = spec_coins(spent@);
    if spent.len() <= 1 {
        return false;
    }
    let mut smallest: u64 = spent[0].value;
    let mut i: usize = 1;
    assert(coins[0].value == smallest);
    while i < spent.len()
        invariant
            1 <= i <= spent.len(),
            coins == spec_coins(spent@),
            exists|k: int| 0 <= k < i && (#[trigger] coins[k]).value == smallest,
            forall|k: int| 0 <= k < i ==> smallest <= (#[trigger] coins[k]).value,
        decreases spent.len() - i,
    {
        assert(coins[i as int] == *spent@[i as int]);
        if spent[i].value < smallest {
            smallest = spent[i].value;
        }
        i = i + 1;
    }
    let mut o: usize = 0;
    while o < outputs.len()
        invariant
            o <= outputs.len(),
            coins.len() > 1,
            coins == spec_coins(spent@),
            exists|k: int| 0 <= k < coins.len() && (#[trigger] coins[k]).value == smallest,
            forall|k: int| 0 <= k < coins.len() ==> smallest <= (#[trigger] coins[k]).value,
            forall|p: int| 0 <= p < o ==> (#[trigger] outputs@[p]).value >= smallest,
        decreases outputs.len() - o,
    {
        if outputs[o].value < smallest {
            assert(forall|i: int|
                0 <= i < coins.len() ==> (#[trigger] outputs@[o as int]).value < (
                #[trigger] coins[i]).value);
            return true;
        }
        o = o + 1;
    }
    false
}

/// Some output pays to the script of one of the coins spent.
pub open spec fn spec_address_reuse(spent: Seq<TxOut>, outputs: Seq<TxOut>) -> bool {
    exists|o: int, i: int|
        0 <= o < outputs.len() && 0 <= i < spent.len() && (#[trigger] outputs[o]).script_pubkey@
            == (#[trigger] spent[i]).script_pubkey@
}

/// Whether the two byte strings are the same.
pub fn same_bytes(a: &Vec<u8>, b: &Vec<u8>) -> (same: bool)
    ensures
        same == (a@ == b@),
{
    if a.len() != b.len() {
        return false;
    }
    let mut i: usize = 0;
    while i < a.len()
        invariant
            i <= a.len(),
            a.len() == b.len(),
            forall|k: int| 0 <= k < i ==> a@[k] == b@[k],
        decreases a.len() - i,
    {
        if a[i] != b[i] {
            return false;
        }
        i = i + 1;
    }
    assert(a@ =~= b@);
    true
}

/// Whether an output pays to a script that an input spends from.
pub fn address_reuse(spent: &Vec<&TxOut>, outputs: &Vec<TxOut>) -> (flag: bool)
    ensures
        flag == spec_address_reuse(spec_coins(spent@), outputs@),
{
    let ghost coins = spec_coins(spent@);
    let mut o: usize = 0;
    while o < outputs.len()
        invariant
            o <= outputs.len(),
            coins == spec_coins(spent@),
            forall|p: int, i: int|
                0 <= p < o && 0 <= i < coins.len() ==> (#[trigger] outputs@[p]).script_pubkey@
                    != (#[trigger] coins[i]).script_pubkey@,
        decreases outputs.len() - o,
    {
        let mut i: usize = 0;
        while i < spent.len()
            invariant
                i <= spent.len(),
                o < outputs.len(),
                coins == spec_coins(spent@),
                forall|k: int|
                    0 <= k < i ==> outputs@[o as int].script_pubkey@ != (
                    #[trigger] coins[k]).script_pubkey@,
            decreases spent.len() - i,
        {
            assert(coins[i as int] == *spent@[i as int]);
            if same_bytes(&outputs[o].script_pubkey, &spent[i].script_pubkey) {
                return true;
            }
            i = i + 1;
        }
        o = o + 1;
    }
    false
}

} // verus!
