# maple

The integer logic of the Maple 3D game engine, written in Verus and proved
against its contracts.

- `src/` is the verified library: index buffers of the procedural shapes
  (`primitives`, over the row-major `grid` model), texture upload conversion
  (`textures`), the choices of the render passes (`render_order`,
  `render_passes`, `mesh_collection`, `lights`), material pipeline state
  (`material`, `material_properties`), egui input and output handling
  (`egui_input`, `egui_render`), audio bookkeeping (`audio`), window and
  loop decisions (`app`), the free-fly camera keys (`camera`), environment
  settings (`environment`) and glTF scene bookkeeping (`scene`).
- `app/` holds what stays outside the proofs: floating-point geometry on
  `glam` (bounding boxes, frusta, cascade splits, tangent frames) and the
  hand-off of the library's input events to `egui`.
- `tests/` exercises the library on concrete values.

Sorting of draw bundles goes through `rayon`'s parallel sort; that call's
contract is the one trusted item of the library.
