//! The acting step of each minigame: identify the fingerprint, match its parts
//! against the captured tiles, and plan the key presses.

use crate::geometry::{GameLayout, R1080};
use crate::matcher::{
    best_match, find_image_in_array, hash_images, image_signatures, is_first_best,
    signature_views,
};
use crate::planner::{
    grid_plan, plan_grid_unsorted, plan_wheel, sorted_spec, wheel_plan, Key, WHEEL_SIZE,
};
use crate::signature::{hash_image, signature_of, Image, SIGNATURE_BYTES};
use vstd::prelude::*;

verus! {

/// Fingerprint variants of the casino minigame.
pub const CASINO_FINGERPRINT_COUNT: usize = 4;

/// Tiles on the casino screen, two per row.
pub const CASINO_TILE_COUNT: usize = 8;

/// Correct parts of each casino fingerprint.
pub const CASINO_PART_COUNT: usize = 4;

/// Settle time after a casino fingerprint is validated, in milliseconds.
pub const CASINO_WAIT_MILLIS: u64 = 4350;

/// Fingerprint variants of the island minigame.
pub const CAYO_FINGERPRINT_COUNT: usize = 7;

/// Parts of each island fingerprint, one per wheel row.
pub const CAYO_PART_COUNT: usize = 8;

/// Settle time after an island fingerprint is solved, in milliseconds.
pub const CAYO_WAIT_MILLIS: u64 = 2200;

/// Header polls per second.
pub const UPDATE_RATE: u64 = 10;

/// Interval between two header polls, in milliseconds.
pub const LOOP_DELAY_MILLIS: u64 = 1000 / UPDATE_RATE;

/// The casino layout at the reference resolution.
pub fn casino_layout() -> (r: GameLayout)
    ensures
        r.within(R1080),
        r.parts@.len() == CASINO_TILE_COUNT,
        r.header == [370u32, 90, 1550, 120],
        r.fingerprint == [974u32, 157, 1320, 685],
        r.parts@ == seq![
            [475u32, 271, 595, 391],
            [618u32, 271, 738, 391],
            [475u32, 414, 595, 535],
            [618u32, 414, 738, 535],
            [475u32, 558, 595, 680],
            [618u32, 558, 738, 680],
            [475u32, 702, 595, 823],
            [618u32, 702, 738, 823],
        ],
{
    let parts: Vec<[u32; 4]> = vec![
        [475, 271, 595, 391],
        [618, 271, 738, 391],
        [475, 414, 595, 535],
        [618, 414, 738, 535],
        [475, 558, 595, 680],
        [618, 558, 738, 680],
        [475, 702, 595, 823],
        [618, 702, 738, 823],
    ];
    GameLayout { header: [370, 90, 1550, 120], fingerprint: [974, 157, 1320, 685], parts }
}

/// The island layout at the reference resolution.
pub fn cayo_layout() -> (r: GameLayout)
    ensures
        r.within(R1080),
        r.parts@.len() == CAYO_PART_COUNT,
        r.header == [600u32, 60, 1661, 127],
        r.fingerprint == [905u32, 321, 1565, 979],
        r.parts@ == seq![
            [413u32, 357, 820, 417],
            [413u32, 433, 820, 493],
            [413u32, 509, 820, 569],
            [413u32, 585, 820, 645],
            [413u32, 661, 820, 721],
            [413u32, 737, 820, 797],
            [413u32, 813, 820, 873],
            [413u32, 889, 820, 949],
        ],
{
    let parts: Vec<[u32; 4]> = vec![
        [413, 357, 820, 417],
        [413, 433, 820, 493],
        [413, 509, 820, 569],
        [413, 585, 820, 645],
        [413, 661, 820, 721],
        [413, 737, 820, 797],
        [413, 813, 820, 873],
        [413, 889, 820, 949],
    ];
    GameLayout { header: [600, 60, 1661, 127], fingerprint: [905, 321, 1565, 979], parts }
}

/// The outcome of one acting step.
pub struct Solution {
    /// Index of the recognised fingerprint.
    pub fingerprint: usize,
    /// One matched index per part, in part order.
    pub positions: Vec<usize>,
    /// The key presses to perform, in order.
    pub keys: Vec<Key>,
}

/// Every image of a list is well formed.
pub open spec fn all_wf(images: Seq<Image>) -> bool {
    forall|j: int| 0 <= j < images.len() ==> (#[trigger] images[j]).wf()
}

/// Every image of every list is well formed.
pub open spec fn all_sets_wf(sets: Seq<Vec<Image>>) -> bool {
    forall|i: int| 0 <= i < sets.len() ==> all_wf((#[trigger] sets[i])@)
}

/// Solves a casino fingerprint: recognises the fingerprint among the templates,
/// finds for each of its correct parts the captured tile that matches it best,
/// and plans the grid presses that select those tiles in ascending order.
pub fn solve_casino(
    fingerprint_shot: &Image,
    fingerprints: &Vec<Image>,
    parts: &Vec<Vec<Image>>,
    part_shots: &Vec<Image>,
) -> (r: Solution)
    requires
        fingerprint_shot.wf(),
        fingerprints@.len() > 0,
        all_wf(fingerprints@),
        parts@.len() == fingerprints@.len(),
        all_sets_wf(parts@),
        part_shots@.len() > 0,
        all_wf(part_shots@),
    ensures
        is_first_best(signature_of(*fingerprint_shot), image_signatures(fingerprints@), r.fingerprint as int),
        r.positions@.len() == parts@[r.fingerprint as int]@.len(),
        forall|k: int|
            0 <= k < r.positions@.len() ==> is_first_best(
                signature_of(parts@[r.fingerprint as int]@[k]),
                image_signatures(part_shots@),
                #[trigger] r.positions@[k] as int,
            ),
        r.keys@ == grid_plan(sorted_spec(r.positions@)),
{
    let fi = find_image_in_array(fingerprint_shot, fingerprints);
    let solutions = &parts[fi];
    assert(all_wf(solutions@));
    let shots = hash_images(part_shots);
    let ghost shot_sigs = signature_views(shots@);
    assert(shot_sigs.len() == shots@.len() && shot_sigs.len() == part_shots@.len());
    assert forall|j: int| 0 <= j < shot_sigs.len() implies (#[trigger] shot_sigs[j]).len() == SIGNATURE_BYTES by {
        assert(shot_sigs[j] == shots@[j]@);
    }
    let mut positions: Vec<usize> = Vec::new();
    let mut k: usize = 0;
    while k < solutions.len()
        invariant
            0 <= k <= solutions@.len(),
            all_wf(solutions@),
            shots@.len() > 0,
            shot_sigs == signature_views(shots@),
            shot_sigs == image_signatures(part_shots@),
            forall|j: int| 0 <= j < shot_sigs.len() ==> (#[trigger] shot_sigs[j]).len() == SIGNATURE_BYTES,
            positions@.len() == k,
            forall|j: int|
                0 <= j < k ==> is_first_best(
                    signature_of(solutions@[j]),
                    shot_sigs,
                    #[trigger] positions@[j] as int,
                ),
        decreases solutions@.len() - k,
    {
        let target = hash_image(&solutions[k]);
        let index = best_match(&target, &shots);
        positions.push(index);
        k += 1;
    }
    let keys = plan_grid_unsorted(positions.clone());
    Solution { fingerprint: fi, positions, keys }
}

/// Solves an island fingerprint: recognises the fingerprint, finds for each
/// captured row the part of that fingerprint it currently shows, and plans the
/// wheel turns that bring row `i` to part `i`, moving down after each row.
pub fn solve_cayo(
    fingerprint_shot: &Image,
    fingerprints: &Vec<Image>,
    parts: &Vec<Vec<Image>>,
    part_shots: &Vec<Image>,
) -> (r: Solution)
    requires
        fingerprint_shot.wf(),
        fingerprints@.len() > 0,
        all_wf(fingerprints@),
        parts@.len() == fingerprints@.len(),
        all_sets_wf(parts@),
        forall|i: int| 0 <= i < parts@.len() ==> 0 < (#[trigger] parts@[i])@.len() <= WHEEL_SIZE,
        part_shots@.len() <= WHEEL_SIZE,
        all_wf(part_shots@),
    ensures
        is_first_best(signature_of(*fingerprint_shot), image_signatures(fingerprints@), r.fingerprint as int),
        r.positions@.len() == part_shots@.len(),
        forall|i: int|
            0 <= i < r.positions@.len() ==> is_first_best(
                signature_of(part_shots@[i]),
                image_signatures(parts@[r.fingerprint as int]@),
                #[trigger] r.positions@[i] as int,
            ),
        r.keys@ == wheel_plan(r.positions@),
{
    let fi = find_image_in_array(fingerprint_shot, fingerprints);
    let solutions = &parts[fi];
    assert(all_wf(solutions@));
    let sols = hash_images(solutions);
    let ghost sol_sigs = signature_views(sols@);
    assert(sol_sigs.len() == sols@.len() && sol_sigs.len() == solutions@.len());
    assert forall|j: int| 0 <= j < sol_sigs.len() implies (#[trigger] sol_sigs[j]).len() == SIGNATURE_BYTES by {
        assert(sol_sigs[j] == sols@[j]@);
    }
    let mut positions: Vec<usize> = Vec::new();
    let mut i: usize = 0;
    while i < part_shots.len()
        invariant
            0 <= i <= part_shots@.len(),
            part_shots@.len() <= WHEEL_SIZE,
            all_wf(part_shots@),
            0 < sols@.len() <= WHEEL_SIZE,
            sol_sigs == signature_views(sols@),
            sol_sigs == image_signatures(solutions@),
            forall|j: int| 0 <= j < sol_sigs.len() ==> (#[trigger] sol_sigs[j]).len() == SIGNATURE_BYTES,
            positions@.len() == i,
            forall|j: int|
                0 <= j < i ==> is_first_best(
                    signature_of(part_shots@[j]),
                    sol_sigs,
                    #[trigger] positions@[j] as int,
                ),
            forall|j: int| 0 <= j < i ==> #[trigger] positions@[j] < WHEEL_SIZE,
        decreases part_shots@.len() - i,
    {
        let target = hash_image(&part_shots[i]);
        let index = best_match(&target, &sols);
        positions.push(index);
        i += 1;
    }
    let keys = plan_wheel(positions.as_slice());
    Solution { fingerprint: fi, positions, keys }
}

} // verus!
