//! A grid that remembers which pixel belongs to whom.

use crate::display::{Pixel, HEIGHT, WIDTH};
use vstd::prelude::*;

verus! {

/// Number of pixels on the screen.
pub const CELLS: usize = 130_560;

/// Two owners that met on one pixel.
pub struct Collision {
    old_id: u8,
    new_id: u8,
}

/// The owner of every pixel of the screen. Owner 0 is nobody.
pub struct PlayingField {
    id_field: Vec<u8>,
    pub collision: bool,
    collisions: Vec<Collision>,
}

/// Where the owner of the pixel `(x, y)` is kept.
pub open spec fn cell(x: int, y: int) -> int {
    x * HEIGHT + y
}

/// One of the first `upto` of `pixels` lies on the screen at place `c` of the
/// grid.
pub open spec fn covers(pixels: Seq<Pixel>, upto: int, c: int) -> bool {
    exists|k: int|
        0 <= k < upto && (#[trigger] pixels[k]).visible() && cell(pixels[k].x as int, pixels[k].y as int)
            == c
}

/// One of the first `upto` of `pixels` lies on the screen where `owners` has
/// an owner other than `id`.
pub open spec fn intrudes(pixels: Seq<Pixel>, upto: int, owners: Seq<u8>, id: u8) -> bool {
    exists|k: int|
        0 <= k < upto && (#[trigger] pixels[k]).visible() && owners[cell(
            pixels[k].x as int,
            pixels[k].y as int,
        )] != id && owners[cell(pixels[k].x as int, pixels[k].y as int)] != 0
}

impl PlayingField {
    /// The owners, column after column.
    pub closed spec fn owners(&self) -> Seq<u8> {
        self.id_field@
    }

    /// A pixel was given away that had another owner.
    pub closed spec fn collided(&self) -> bool {
        self.collision
    }

    /// Number of meetings on record.
    pub closed spec fn recorded(&self) -> nat {
        self.collisions@.len()
    }

    pub open spec fn wf(&self) -> bool {
        self.owners().len() == CELLS
    }

    /// A field on which nobody owns anything.
    pub fn new() -> (field: PlayingField)
        ensures
            field.wf(),
            !field.collided(),
            field.recorded() == 0,
            forall|c: int| 0 <= c < CELLS ==> field.owners()[c] == 0,
    {
        let mut id_field: Vec<u8> = Vec::new();
        let mut c: usize = 0;
        while c < CELLS
            invariant
                c <= CELLS,
                id_field@.len() == c,
                forall|k: int| 0 <= k < c ==> id_field@[k] == 0,
            decreases CELLS - c,
        {
            id_field.push(0);
            c += 1;
        }
        PlayingField { id_field, collision: false, collisions: Vec::new() }
    }

    /// Gives the pixels of `item_pixels` that lie on the screen to `id`, and
    /// raises `collision` if one of them had another owner.
    pub fn store(&mut self, item_pixels: &[Pixel], id: u8)
        requires
            old(self).wf(),
        ensures
            final(self).wf(),
            final(self).recorded() == old(self).recorded(),
            final(self).collided() == (old(self).collided() || intrudes(
                item_pixels@,
                item_pixels@.len() as int,
                old(self).owners(),
                id,
            )),
            forall|c: int|
                0 <= c < CELLS ==> #[trigger] final(self).owners()[c] == if covers(
                    item_pixels@,
                    item_pixels@.len() as int,
                    c,
                ) {
                    id
                } else {
                    old(self).owners()[c]
                },
    {
        let mut i: usize = 0;
        while i < item_pixels.len()
            invariant
                i <= item_pixels@.len(),
                self.id_field@.len() == CELLS,
                self.collisions == old(self).collisions,
                self.collision == (old(self).collision || intrudes(
                    item_pixels@,
                    i as int,
                    old(self).owners(),
                    id,
                )),
                forall|c: int|
                    0 <= c < CELLS ==> #[trigger] self.id_field@[c] == if covers(
                        item_pixels@,
                        i as int,
                        c,
                    ) {
                        id
                    } else {
                        old(self).owners()[c]
                    },
            decreases item_pixels@.len() - i,
        {
            let p = item_pixels[i];
            let ghost before = self.id_field@;
            if (p.x as usize) < WIDTH && (p.y as usize) < HEIGHT {
                let at: usize = (p.x as usize) * HEIGHT + (p.y as usize);
                let old_id: u8 = self.id_field[at];
                if old_id != id && old_id != 0 {
                    self.collision = true;
                }
                self.id_field[at] = id;
                proof {
                    assert(at == cell(p.x as int, p.y as int));
                    assert forall|c: int| 0 <= c < CELLS implies #[trigger] self.id_field@[c]
                        == if covers(item_pixels@, i + 1, c) {
                        id
                    } else {
                        old(self).owners()[c]
                    } by {
                        if c == at {
                            assert(item_pixels@[i as int].visible());
                        } else if covers(item_pixels@, i + 1, c) {
                            let k = choose|k: int|
                                0 <= k < i + 1 && (#[trigger] item_pixels@[k]).visible() && cell(
                                    item_pixels@[k].x as int,
                                    item_pixels@[k].y as int,
                                ) == c;
                            assert(k < i);
                            assert(covers(item_pixels@, i as int, c));
                        } else {
                            assert(self.id_field@[c] == before[c]);
                            if covers(item_pixels@, i as int, c) {
                                let k = choose|k: int|
                                    0 <= k < i && (#[trigger] item_pixels@[k]).visible() && cell(
                                        item_pixels@[k].x as int,
                                        item_pixels@[k].y as int,
                                    ) == c;
                                assert(covers(item_pixels@, i + 1, c));
                            }
                        }
                    }
                    if old_id != id && old_id != 0 {
                        if covers(item_pixels@, i as int, at as int) {
                            assert(before[at as int] == id);
                        }
                        assert(old(self).owners()[at as int] == old_id);
                        assert(intrudes(item_pixels@, i + 1, old(self).owners(), id));
                    } else if intrudes(item_pixels@, i + 1, old(self).owners(), id) {
                        let k = choose|k: int|
                            0 <= k < i + 1 && (#[trigger] item_pixels@[k]).visible() && old(self).owners()[cell(item_pixels@[k].x as int, item_pixels@[k].y as int)]
                                != id && old(self).owners()[cell(
                                item_pixels@[k].x as int,
                                item_pixels@[k].y as int,
                            )] != 0;
                        if k == i {
                            if covers(item_pixels@, i as int, at as int) {
                                let j = choose|j: int|
                                    0 <= j < i && (#[trigger] item_pixels@[j]).visible() && cell(
                                        item_pixels@[j].x as int,
                                        item_pixels@[j].y as int,
                                    ) == at;
                                assert(intrudes(item_pixels@, i as int, old(self).owners(), id));
                            } else {
                                assert(before[at as int] == old(self).owners()[at as int]);
                            }
                        } else {
                            assert(intrudes(item_pixels@, i as int, old(self).owners(), id));
                        }
                    } else if intrudes(item_pixels@, i as int, old(self).owners(), id) {
                        let k = choose|k: int|
                            0 <= k < i && (#[trigger] item_pixels@[k]).visible() && old(self).owners()[cell(item_pixels@[k].x as int, item_pixels@[k].y as int)]
                                != id && old(self).owners()[cell(
                                item_pixels@[k].x as int,
                                item_pixels@[k].y as int,
                            )] != 0;
                        assert(intrudes(item_pixels@, i + 1, old(self).owners(), id));
                    }
                }
            } else {
                proof {
                    assert(!item_pixels@[i as int].visible());
                    assert forall|c: int| 0 <= c < CELLS implies covers(item_pixels@, i + 1, c)
                        == covers(item_pixels@, i as int, c) by {
                        if covers(item_pixels@, i + 1, c) {
                            let k = choose|k: int|
                                0 <= k < i + 1 && (#[trigger] item_pixels@[k]).visible() && cell(
                                    item_pixels@[k].x as int,
                                    item_pixels@[k].y as int,
                                ) == c;
                            assert(covers(item_pixels@, i as int, c));
                        }
                        if covers(item_pixels@, i as int, c) {
                            let k = choose|k: int|
                                0 <= k < i && (#[trigger] item_pixels@[k]).visible() && cell(
                                    item_pixels@[k].x as int,
                                    item_pixels@[k].y as int,
                                ) == c;
                            assert(covers(item_pixels@, i + 1, c));
                        }
                    }
                    if intrudes(item_pixels@, i + 1, old(self).owners(), id) {
                        let k = choose|k: int|
                            0 <= k < i + 1 && (#[trigger] item_pixels@[k]).visible() && old(self).owners()[cell(item_pixels@[k].x as int, item_pixels@[k].y as int)]
                                != id && old(self).owners()[cell(
                                item_pixels@[k].x as int,
                                item_pixels@[k].y as int,
                            )] != 0;
                        assert(intrudes(item_pixels@, i as int, old(self).owners(), id));
                    }
                    if intrudes(item_pixels@, i as int, old(self).owners(), id) {
                        let k = choose|k: int|
                            0 <= k < i && (#[trigger] item_pixels@[k]).visible() && old(self).owners()[cell(item_pixels@[k].x as int, item_pixels@[k].y as int)]
                                != id && old(self).owners()[cell(
                                item_pixels@[k].x as int,
                                item_pixels@[k].y as int,
                            )] != 0;
                        assert(intrudes(item_pixels@, i + 1, old(self).owners(), id));
                    }
                }
            }
            i += 1;
        }
    }

    /// Forgets the meetings on record.
    pub fn reset_collisions(&mut self)
        ensures
            final(self).recorded() == 0,
            final(self).owners() == old(self).owners(),
            final(self).collided() == old(self).collided(),
    {
        self.collisions.clear();
    }

    /// Takes every pixel from its owner.
    pub fn clear(&mut self)
        requires
            old(self).wf(),
        ensures
            final(self).wf(),
            final(self).collided() == old(self).collided(),
            final(self).recorded() == old(self).recorded(),
            forall|c: int| 0 <= c < CELLS ==> final(self).owners()[c] == 0,
    {
        let mut c: usize = 0;
        while c < CELLS
            invariant
                c <= CELLS,
                self.id_field@.len() == CELLS,
                self.collision == old(self).collision,
                self.collisions == old(self).collisions,
                forall|k: int| 0 <= k < c ==> self.id_field@[k] == 0,
            decreases CELLS - c,
        {
            self.id_field[c] = 0;
            c += 1;
        }
    }

    /// The owner of the pixel `(x, y)`.
    pub fn owner(&self, x: usize, y: usize) -> (id: u8)
        requires
            self.wf(),
            x < WIDTH,
            y < HEIGHT,
        ensures
            id == self.owners()[cell(x as int, y as int)],
    {
        self.id_field[x * HEIGHT + y]
    }
}

} // verus!
