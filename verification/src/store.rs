//! The column store behind a workbook: room for cells, and values laid over it.

use crate::engine::{EngineEvent, EngineFlags, WorkbookEngine};
use crate::host::Host;
use crate::value::{overlay_of, overlay_value, LiteralValue};
use vstd::prelude::*;

verus! {

/// The number of rows in a chunk of a sheet that the workbook makes.
pub const CHUNK_ROWS: usize = 32768;

/// What the store answers when room is made in a sheet.
pub struct CapacityReplies {
    pub present: bool,
    pub rows: u32,
    pub columns: usize,
}

/// The history `h` after room was made for `min_rows` rows and `min_columns`
/// columns: the sheet is added where it is missing, then rows are added, then
/// columns behind the last one.
pub open spec fn after_capacity<E: WorkbookEngine>(
    h: Seq<EngineEvent<E>>,
    sheet: Seq<char>,
    min_rows: int,
    min_columns: int,
    replies: CapacityReplies,
) -> Seq<EngineEvent<E>> {
    let asked = h.push(EngineEvent::HasStoreSheet { sheet, reply: replies.present });
    let there = if replies.present {
        asked
    } else {
        asked.push(EngineEvent::PushStoreSheet { sheet, chunk_rows: CHUNK_ROWS })
    };
    let counted = there.push(EngineEvent::StoreRows { sheet, reply: replies.rows });
    let tall = if min_rows > replies.rows {
        counted.push(EngineEvent::EnsureStoreRows { sheet, rows: min_rows as usize })
    } else {
        counted
    };
    let measured = tall.push(EngineEvent::StoreColumns { sheet, reply: replies.columns });
    if min_columns > replies.columns {
        measured.push(
            EngineEvent::InsertStoreColumns {
                sheet,
                at: replies.columns,
                count: (min_columns - replies.columns) as usize,
            },
        )
    } else {
        measured
    }
}

/// What the engine answers when a value is laid into the overlay.
pub struct MirrorReplies {
    pub flags: EngineFlags,
    pub capacity: CapacityReplies,
    pub place: Option<(usize, usize)>,
    pub chunk_there: bool,
}

/// A coordinate counted from one as an index of the store.
pub open spec fn store_index(n: u32) -> usize {
    if n == 0 {
        0
    } else {
        (n - 1) as usize
    }
}

/// The history `h` after `value` was laid into the overlay of a cell. Nothing is
/// laid unless the store and its overlay are switched on and the store has a chunk
/// for the cell.
pub open spec fn after_mirror<E: WorkbookEngine>(
    h: Seq<EngineEvent<E>>,
    sheet: Seq<char>,
    row: u32,
    col: u32,
    value: LiteralValue,
    replies: MirrorReplies,
) -> Seq<EngineEvent<E>> {
    let asked = h.push(EngineEvent::Flags { reply: replies.flags });
    if !(replies.flags.arrow_storage_enabled && replies.flags.delta_overlay_enabled) {
        asked
    } else {
        let row0 = store_index(row);
        let col0 = store_index(col);
        let roomy = after_capacity(asked, sheet, row0 + 1, col0 + 1, replies.capacity);
        let placed = roomy.push(EngineEvent::ChunkOfRow { sheet, row0, reply: replies.place });
        match replies.place {
            None => placed,
            Some((chunk, offset)) => {
                let made = placed.push(
                    EngineEvent::EnsureColumnChunk {
                        sheet,
                        col0,
                        chunk,
                        reply: replies.chunk_there,
                    },
                );
                if replies.chunk_there {
                    made.push(
                        EngineEvent::SetOverlay {
                            sheet,
                            col0,
                            chunk,
                            offset,
                            value: overlay_of(value, replies.flags.date_system),
                        },
                    )
                } else {
                    made
                }
            },
        }
    }
}

impl<E: WorkbookEngine> Host<E> {
    /// Makes room in the store, see [`after_capacity`].
    pub(crate) fn ensure_arrow_sheet_capacity(
        &mut self,
        sheet: &str,
        min_rows: usize,
        min_cols: usize,
    ) -> (replies: Ghost<CapacityReplies>)
        ensures
            final(self).history() == after_capacity(
                old(self).history(),
                sheet@,
                min_rows as int,
                min_cols as int,
                replies@,
            ),
    {
        let present = self.has_store_sheet(sheet);
        if !present {
            self.push_store_sheet(sheet, CHUNK_ROWS);
        }
        let rows = self.store_rows(sheet);
        if min_rows as u64 > rows as u64 {
            self.ensure_store_rows(sheet, min_rows);
        }
        let columns = self.store_columns(sheet);
        if min_cols > columns {
            self.insert_store_columns(sheet, columns, min_cols - columns);
        }
        Ghost(CapacityReplies { present, rows, columns })
    }

    /// Lays `value` into the overlay of a cell, see [`after_mirror`].
    pub(crate) fn mirror_value_to_overlay(
        &mut self,
        sheet: &str,
        row: u32,
        col: u32,
        value: &LiteralValue,
    ) -> (replies: Ghost<MirrorReplies>)
        ensures
            final(self).history() == after_mirror(
                old(self).history(),
                sheet@,
                row,
                col,
                *value,
                replies@,
            ),
    {
        let flags = self.flags();
        let ghost none = CapacityReplies { present: true, rows: 0, columns: 0 };
        if !(flags.arrow_storage_enabled && flags.delta_overlay_enabled) {
            return Ghost(
                MirrorReplies { flags, capacity: none, place: None, chunk_there: false },
            );
        }
        let row0: usize = if row == 0 {
            0
        } else {
            (row - 1) as usize
        };
        let col0: usize = if col == 0 {
            0
        } else {
            (col - 1) as usize
        };
        let capacity = self.ensure_arrow_sheet_capacity(sheet, row0 + 1, col0 + 1);
        let place = self.chunk_of_row(sheet, row0);
        let mut chunk_there = false;
        if let Some((chunk, offset)) = place {
            let laid = overlay_value(value, flags.date_system);
            chunk_there = self.ensure_column_chunk(sheet, col0, chunk);
            if chunk_there {
                self.set_overlay(sheet, col0, chunk, offset, &laid);
            }
        }
        Ghost(MirrorReplies { flags, capacity: capacity@, place, chunk_there })
    }
}

} // verus!
