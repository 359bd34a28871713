# durer

A small software renderer whose integer core is verified with Verus.

- `src/` is the verified library: pixel writes into RGB buffers, canvas coordinates,
  Bresenham lines and polygon outlines, integer interpolation, the corner order and row
  spans of filled triangles, clipping plans for triangles cut by a plane, the triangle
  list of a UV sphere, constructive-solid-geometry crossings along a ray, an 8x8 bitmap
  font, and the OBJ and PLY2 mesh formats (line classification, face corners, fan
  triangulation, vertex numbering, header counts and file progress). Every public
  function has a contract, and the laws that tie functions together are public proof
  functions.
- `app/` is the program around it: windows and image files, and all floating-point work
  (vectors and matrices, projection, lighting, ray tracing, texture sampling). Run it as
  `durer rasterizer`, `durer scene`, `durer cubes`, `durer cube`, `durer spheres`,
  `durer three-spheres`, `durer starfield` or `durer wireframe FILE.ply2`.
- `tests/` exercises the library on concrete values.
